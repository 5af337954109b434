//! `--dry-run`: watch real devices, mount nothing, and say what would happen.
//!
//! The mount key is derived from what the USB watch reports, and if an arrival and its matching
//! departure derived it *differently*, no departure would ever match a mounted device and the
//! daemon would leak mount points for as long as it runs. So `--dry-run` answers exactly that
//! question against real hardware: plug the phone in, pull it out, and read whether the two keys
//! agreed.
//!
//! It touches nothing on the filesystem and opens no device. It reports the paths it *would* use.
use crate::daemon::facts::{keys_depend_on_identity_alone, usable, DeviceFacts, FactsView};
use crate::daemon::keys::{
    drop_key, insert_key, sorted, sorted_keys_are_found, sorted_keys_stay_sorted, SortedKeys,
};
use crate::spool::{join_path, path_join};
use crate::text::{
    copy_texts, decimal, hex4, join, join_texts, padding, push_decimal, push_hex4, push_padded,
    texts,
};
use vstd::prelude::*;

verus! {

/// What drives the reporter.
#[derive(Debug, Clone)]
pub enum DryRunCommand {
    /// A device was plugged in, or was already there when watching started.
    Arrived(DeviceFacts),
    /// A device went away.
    Left(DeviceFacts),
    /// Print the summary and end the run.
    Stop(String),
}

/// A [`DryRunCommand`], with texts as sequences of characters.
#[verifier::ext_equal]
pub enum CommandView {
    Arrived(FactsView),
    Left(FactsView),
    Stop(Seq<char>),
}

impl View for DryRunCommand {
    type V = CommandView;

    open spec fn view(&self) -> CommandView {
        match self {
            DryRunCommand::Arrived(facts) => CommandView::Arrived(facts@),
            DryRunCommand::Left(facts) => CommandView::Left(facts@),
            DryRunCommand::Stop(reason) => CommandView::Stop(reason@),
        }
    }
}

pub open spec fn command_views(commands: Seq<DryRunCommand>) -> Seq<CommandView> {
    Seq::new(commands.len(), |i: int| commands[i]@)
}

/// What a departure turned out to be: the answer the dry run exists for.
#[derive(Debug, Clone, PartialEq, Eq)]
pub enum DepartureVerdict {
    /// The departure's key is one that arrived, so the right mount comes down.
    Matched(String),
    /// The key matched nothing that arrived, and mounts are open: those stay mounted forever. This
    /// is the failure `--dry-run` is looking for.
    WouldLeak(Vec<String>),
    /// The key matched nothing, but nothing was mounted either, so there's nothing to leak: a
    /// departure before any arrival, or a repeat departure.
    NothingToUnmount,
}

/// A [`DepartureVerdict`], with paths as sequences of characters.
#[verifier::ext_equal]
pub enum VerdictView {
    Matched(Seq<char>),
    WouldLeak(Seq<Seq<char>>),
    NothingToUnmount,
}

impl View for DepartureVerdict {
    type V = VerdictView;

    open spec fn view(&self) -> VerdictView {
        match self {
            DepartureVerdict::Matched(path) => VerdictView::Matched(path@),
            DepartureVerdict::WouldLeak(paths) => VerdictView::WouldLeak(texts(paths@)),
            DepartureVerdict::NothingToUnmount => VerdictView::NothingToUnmount,
        }
    }
}

/// Running totals, so a person can plug in and out a few times and glance.
#[derive(Debug, Clone, Copy, PartialEq, Eq, Structural)]
pub struct Tally {
    /// Arrivals seen.
    pub arrivals: usize,
    /// Departures seen.
    pub departures: usize,
    /// Departures that matched an arrival.
    pub matched: usize,
    /// Departures that didn't.
    pub unmatched: usize,
}

impl Default for Tally {
    fn default() -> (tally: Self)
        ensures
            tally == (Tally { arrivals: 0, departures: 0, matched: 0, unmatched: 0 }),
    {
        Tally { arrivals: 0, departures: 0, matched: 0, unmatched: 0 }
    }
}

/// Width of the label column in the fact list.
pub const FIELD: usize = 16;

/// Reports what the daemon would do, and mounts nothing.
#[derive(Debug)]
pub struct DryRun {
    mount_root: String,
    /// Keys that arrived and haven't left: what would be mounted right now.
    open: SortedKeys,
    /// Every key seen arriving this session, for the no-match message.
    arrived_keys: Vec<String>,
    tally: Tally,
    events: usize,
    /// What has been reported.
    output: String,
}

/// What a dry run knows, and what it has reported.
#[verifier::ext_equal]
pub struct DryView {
    pub mount_root: Seq<char>,
    pub open: Seq<Seq<char>>,
    pub arrived_keys: Seq<Seq<char>>,
    pub tally: Tally,
    pub events: usize,
    pub output: Seq<char>,
}

impl View for DryRun {
    type V = DryView;

    closed spec fn view(&self) -> DryView {
        DryView {
            mount_root: self.mount_root@,
            open: self.open@,
            arrived_keys: texts(self.arrived_keys@),
            tally: self.tally,
            events: self.events,
            output: self.output@,
        }
    }
}

/// A text that may not have been reported.
pub open spec fn or_unreported(o: Option<Seq<char>>) -> Seq<char> {
    match o {
        Some(s) => s,
        None => "(not reported)"@,
    }
}

/// The paths of mounts called `keys` under `root`.
pub open spec fn mount_paths(root: Seq<char>, keys: Seq<Seq<char>>) -> Seq<Seq<char>> {
    Seq::new(keys.len(), |i: int| path_join(root, keys[i]))
}

impl DryView {
    /// Whether every counter can count `n` more.
    pub open spec fn has_room(self, n: int) -> bool {
        &&& self.events + n <= usize::MAX
        &&& self.tally.arrivals + n <= usize::MAX
        &&& self.tally.departures + n <= usize::MAX
        &&& self.tally.matched + n <= usize::MAX
        &&& self.tally.unmatched + n <= usize::MAX
    }

    /// One more line is reported.
    pub open spec fn said(self, text: Seq<char>) -> DryView {
        DryView { output: self.output + text + "\n"@, ..self }
    }

    /// Lines are reported, each behind `prefix`.
    pub open spec fn said_each(self, prefix: Seq<char>, lines: Seq<Seq<char>>) -> DryView
        decreases lines.len(),
    {
        if lines.len() == 0 {
            self
        } else {
            self.said_each(prefix, lines.drop_last()).said(prefix + lines.last())
        }
    }

    /// A fact is reported, its name in a column of its own.
    pub open spec fn field(self, name: Seq<char>, value: Seq<char>) -> DryView {
        self.said("    "@ + name + padding(name.len() as int, FIELD as int) + value)
    }

    pub open spec fn event_header(self, what: Seq<char>, facts: FactsView) -> DryView {
        let n = (self.events + 1) as usize;
        DryView { events: n, ..self }.said(
            "------------------------------------------------------------"@,
        ).said(
            "#"@ + decimal(n as nat) + "  "@ + what + padding(what.len() as int, 10) + "  "@
                + facts.headline(),
        )
    }

    /// The raw fields the key came from. `full` adds the arrival-only ones.
    pub open spec fn facts(self, facts: FactsView, full: bool) -> DryView {
        let basic = self.field("serial"@, or_unreported(facts.serial)).field(
            "vendor:product"@,
            hex4(facts.vendor_id as int) + ":"@ + hex4(facts.product_id as int),
        ).field("location id"@, decimal(facts.location_id as nat)).field(
            "manufacturer"@,
            or_unreported(facts.manufacturer),
        ).field("product"@, or_unreported(facts.product));
        if full {
            basic.field("usb speed"@, or_unreported(facts.speed)).field(
                "matched by"@,
                or_unreported(facts.match_reason),
            )
        } else {
            basic
        }
    }

    pub open spec fn running_total(self) -> DryView {
        self.said(
            "    So far: "@ + decimal(self.tally.arrivals as nat) + " arrived, "@ + decimal(
                self.tally.departures as nat,
            ) + " left, "@ + decimal(self.tally.matched as nat) + " matched, "@ + decimal(
                self.tally.unmatched as nat,
            ) + " unmatched, "@ + decimal(self.open.len()) + " would be mounted."@,
        )
    }

    pub open spec fn banner(self) -> DryView {
        self.said(""@).said("=== mtp-mountd --dry-run: nothing will be mounted ==="@).said(
            "Mount root it would use: "@ + self.mount_root,
        ).said("Plug a device in, wait for it to appear, then unplug it."@).said(
            "Every departure should say MATCHES. Stop with Ctrl-C."@,
        ).said(""@)
    }

    /// The report of an arrival. A key that is already down as arrived keeps its first mount.
    #[verifier::opaque]
    pub open spec fn arrived(self, facts: FactsView) -> DryView {
        let key = facts.key();
        let path = path_join(self.mount_root, key);
        let told = DryView {
            tally: Tally { arrivals: (self.tally.arrivals + 1) as usize, ..self.tally },
            ..self
        }.event_header("PLUGGED IN"@, facts).facts(facts, true).field("mount key"@, key).field(
            "would mount at"@,
            path,
        );
        let opened = if told.open.contains(key) {
            told.said(
                "    Note: "@ + key + " is already down as arrived (at "@ + path
                    + "). The daemon would keep the first mount and ignore this one."@,
            )
        } else {
            DryView { open: insert_key(told.open, key), ..told }
        };
        let seen = if opened.arrived_keys.contains(key) {
            opened
        } else {
            DryView { arrived_keys: opened.arrived_keys.push(key), ..opened }
        };
        seen.running_total()
    }

    /// What a departure of `key` is.
    pub open spec fn verdict(self, key: Seq<char>) -> VerdictView {
        if self.open.contains(key) {
            VerdictView::Matched(path_join(self.mount_root, key))
        } else if self.open.len() == 0 {
            VerdictView::NothingToUnmount
        } else {
            VerdictView::WouldLeak(mount_paths(self.mount_root, self.open))
        }
    }

    pub open spec fn matched(self, path: Seq<char>) -> DryView {
        DryView {
            tally: Tally { matched: (self.tally.matched + 1) as usize, ..self.tally },
            ..self
        }.said(">>> MATCHES the arrival: the daemon would unmount "@ + path + " <<<"@)
    }

    pub open spec fn would_leak_head(self, key: Seq<char>) -> DryView {
        DryView {
            tally: Tally { unmatched: (self.tally.unmatched + 1) as usize, ..self.tally },
            ..self
        }.said("!!!"@).said(
            "!!! NO MATCH - nothing arrived with the key "@ + key + ", so this departure"@,
        ).said("!!! would take nothing down. These mounts would leak:"@)
    }

    pub open spec fn would_leak(self, key: Seq<char>, leaked: Seq<Seq<char>>) -> DryView {
        self.would_leak_head(key).said_each("!!!     "@, leaked).said("!!! Keys seen arriving: "@ + join(self.arrived_keys, ", "@)).said(
            "!!! This is the bug --dry-run looks for. Please report it."@,
        ).said("!!!"@)
    }

    pub open spec fn nothing_to_unmount(self, key: Seq<char>) -> DryView {
        DryView {
            tally: Tally { unmatched: (self.tally.unmatched + 1) as usize, ..self.tally },
            ..self
        }.said(
            "--- NO MATCH for "@ + key + ", but nothing is mounted, so nothing leaks."@,
        ).said(
            "--- A departure with no arrival behind it: the device left twice, or it went away before the watch ever reported it."@,
        )
    }

    /// The report of a departure.
    #[verifier::opaque]
    pub open spec fn left(self, facts: FactsView) -> DryView {
        let key = facts.key();
        let told = DryView {
            tally: Tally { departures: (self.tally.departures + 1) as usize, ..self.tally },
            ..self
        }.event_header("UNPLUGGED"@, facts).facts(facts, false).field("mount key"@, key);
        let judged = match self.verdict(key) {
            VerdictView::Matched(path) => DryView {
                open: drop_key(told.open, key),
                ..told
            }.matched(path),
            VerdictView::WouldLeak(leaked) => told.would_leak(key, leaked),
            VerdictView::NothingToUnmount => told.nothing_to_unmount(key),
        };
        judged.running_total()
    }

    /// What the totals come to.
    pub open spec fn conclusion(self) -> Seq<char> {
        if self.tally.unmatched > 0 {
            "PROBLEM: a departure didn't match its arrival, so the daemon would leak a mount for this device. The fields above show which one disagreed."@
        } else if self.tally.departures > 0 {
            "All good: every departure matched an arrival, so the daemon takes the right mount down for this device."@
        } else if self.tally.arrivals > 0 {
            "No departures seen. Unplug the device while this is running to check the half that matters."@
        } else {
            "No devices seen at all. Check the phone is unlocked and set to \"File Transfer\", and try RUST_LOG=debug."@
        }
    }

    /// The report after a command.
    pub open spec fn after(self, command: CommandView) -> DryView {
        match command {
            CommandView::Arrived(facts) => self.arrived(facts),
            CommandView::Left(facts) => self.left(facts),
            CommandView::Stop(reason) => self.summary(reason),
        }
    }

    /// The report after commands up to the first stop; without one, the watch has stopped.
    pub open spec fn after_all(self, commands: Seq<CommandView>) -> DryView
        decreases commands.len(),
    {
        if commands.len() == 0 {
            self.summary("the device watch stopped"@)
        } else if commands[0] is Stop {
            self.after(commands[0])
        } else {
            self.after(commands[0]).after_all(commands.drop_first())
        }
    }

    /// The closing report.
    #[verifier::opaque]
    pub open spec fn summary(self, reason: Seq<char>) -> DryView {
        self.said(""@).said("=== Dry run over: "@ + reason + " ==="@).said(
            "  Arrivals:   "@ + decimal(self.tally.arrivals as nat),
        ).said("  Departures: "@ + decimal(self.tally.departures as nat)).said(
            "  Matched:    "@ + decimal(self.tally.matched as nat),
        ).said("  Unmatched:  "@ + decimal(self.tally.unmatched as nat)).said(
            "  Would be mounted now: "@ + if self.open.len() == 0 {
                "nothing"@
            } else {
                join(self.open, ", "@)
            },
        ).said(""@).said(self.conclusion()).said(""@)
    }
}

/// Lines that are reported change nothing else.
proof fn lemma_lines_keep(view: DryView, prefix: Seq<char>, lines: Seq<Seq<char>>)
    ensures
        view.said_each(prefix, lines) == (DryView {
            output: view.said_each(prefix, lines).output,
            ..view
        }),
    decreases lines.len(),
{
    if lines.len() > 0 {
        lemma_lines_keep(view, prefix, lines.drop_last());
    }
}

fn or_not_reported(o: &Option<String>) -> (s: String)
    ensures
        s@ == or_unreported(crate::daemon::facts::opt_text(*o)),
{
    match o {
        Some(s) => s.clone(),
        None => "(not reported)".to_string(),
    }
}

impl DryRun {
    /// A reporter with nothing reported yet.
    pub fn new(mount_root: &str) -> (dry: Self)
        ensures
            dry@ == (DryView {
                mount_root: mount_root@,
                open: Seq::empty(),
                arrived_keys: Seq::empty(),
                tally: Tally { arrivals: 0, departures: 0, matched: 0, unmatched: 0 },
                events: 0,
                output: Seq::empty(),
            }),
    {
        Self::with_output(mount_root, String::new())
    }

    /// A reporter that goes on behind what `output` already holds.
    pub fn with_output(mount_root: &str, output: String) -> (dry: Self)
        ensures
            dry@ == (DryView {
                mount_root: mount_root@,
                open: Seq::empty(),
                arrived_keys: Seq::empty(),
                tally: Tally { arrivals: 0, departures: 0, matched: 0, unmatched: 0 },
                events: 0,
                output: output@,
            }),
    {
        let dry = DryRun {
            mount_root: mount_root.to_string(),
            open: SortedKeys::new(),
            arrived_keys: Vec::new(),
            tally: Tally::default(),
            events: 0,
            output,
        };
        assert(dry@.arrived_keys =~= Seq::empty());
        dry
    }

    /// Totals so far.
    pub fn tally(&self) -> (tally: Tally)
        ensures
            tally == self@.tally,
    {
        self.tally
    }

    /// Keys that arrived and haven't left, sorted.
    pub fn open_keys(&self) -> (keys: Vec<String>)
        ensures
            texts(keys@) == self@.open,
            sorted(self@.open),
    {
        copy_texts(self.open.as_vec())
    }

    /// Everything reported so far.
    pub fn output(&self) -> (output: &str)
        ensures
            output@ == self@.output,
    {
        self.output.as_str()
    }

    /// Hands over what has been reported since this was last called.
    pub fn take_output(&mut self) -> (output: String)
        ensures
            output@ == old(self)@.output,
            final(self)@ == (DryView { output: Seq::empty(), ..old(self)@ }),
    {
        let mut output = String::new();
        std::mem::swap(&mut self.output, &mut output);
        output
    }

    /// One line out.
    fn line(&mut self, text: &str)
        ensures
            final(self)@ == old(self)@.said(text@),
    {
        self.output.append(text);
        self.output.append("\n");
    }

    fn lines(&mut self, prefix: &str, lines: &Vec<String>)
        ensures
            final(self)@ == old(self)@.said_each(prefix@, texts(lines@)),
    {
        let ghost all = texts(lines@);
        let mut i: usize = 0;
        while i < lines.len()
            invariant
                i <= lines.len(),
                all == texts(lines@),
                self@ == old(self)@.said_each(prefix@, all.take(i as int)),
            decreases lines.len() - i,
        {
            let mut text = prefix.to_string();
            text.append(lines[i].as_str());
            assert(all.take(i + 1).drop_last() =~= all.take(i as int));
            self.line(text.as_str());
            i += 1;
        }
        assert(all.take(i as int) =~= all);
    }

    fn field(&mut self, name: &str, value: &str)
        ensures
            final(self)@ == old(self)@.field(name@, value@),
    {
        let mut text = "    ".to_string();
        push_padded(&mut text, name, FIELD);
        text.append(value);
        self.line(text.as_str());
    }

    fn event_header(&mut self, what: &str, facts: &DeviceFacts)
        requires
            old(self)@.events < usize::MAX,
        ensures
            final(self)@ == old(self)@.event_header(what@, facts@),
    {
        self.events += 1;
        let n: usize = self.events;
        self.line("------------------------------------------------------------");
        let mut text = "#".to_string();
        push_decimal(&mut text, n as u64);
        text.append("  ");
        push_padded(&mut text, what, 10);
        text.append("  ");
        text.append(facts.headline().as_str());
        self.line(text.as_str());
    }

    /// The raw fields the key came from. `full` adds the arrival-only ones.
    fn facts(&mut self, facts: &DeviceFacts, full: bool)
        ensures
            final(self)@ == old(self)@.facts(facts@, full),
    {
        self.field("serial", or_not_reported(&facts.serial).as_str());
        let mut ids = String::new();
        push_hex4(&mut ids, facts.vendor_id);
        ids.append(":");
        push_hex4(&mut ids, facts.product_id);
        assert(ids@ =~= hex4(facts.vendor_id as int) + ":"@ + hex4(facts.product_id as int));
        self.field("vendor:product", ids.as_str());
        self.field(
            "location id",
            crate::text::decimal_string(facts.location_id).as_str(),
        );
        self.field("manufacturer", or_not_reported(&facts.manufacturer).as_str());
        self.field("product", or_not_reported(&facts.product).as_str());
        if full {
            self.field("usb speed", or_not_reported(&facts.speed).as_str());
            self.field("matched by", or_not_reported(&facts.match_reason).as_str());
        }
    }

    fn running_total(&mut self)
        ensures
            final(self)@ == old(self)@.running_total(),
    {
        let mut text = "    So far: ".to_string();
        push_decimal(&mut text, self.tally.arrivals as u64);
        text.append(" arrived, ");
        push_decimal(&mut text, self.tally.departures as u64);
        text.append(" left, ");
        push_decimal(&mut text, self.tally.matched as u64);
        text.append(" matched, ");
        push_decimal(&mut text, self.tally.unmatched as u64);
        text.append(" unmatched, ");
        push_decimal(&mut text, self.open.as_vec().len() as u64);
        text.append(" would be mounted.");
        self.line(text.as_str());
    }

    /// Header: what this mode does and what to do with it.
    pub fn banner(&mut self)
        ensures
            final(self)@ == old(self)@.banner(),
    {
        self.line("");
        self.line("=== mtp-mountd --dry-run: nothing will be mounted ===");
        let mut root = "Mount root it would use: ".to_string();
        root.append(self.mount_root.as_str());
        self.line(root.as_str());
        self.line("Plug a device in, wait for it to appear, then unplug it.");
        self.line("Every departure should say MATCHES. Stop with Ctrl-C.");
        self.line("");
    }

    /// Notes that `key` has been seen arriving.
    fn remember(&mut self, key: &String)
        ensures
            final(self)@ == if old(self)@.arrived_keys.contains(key@) {
                old(self)@
            } else {
                DryView { arrived_keys: old(self)@.arrived_keys.push(key@), ..old(self)@ }
            },
    {
        let ghost all = texts(self.arrived_keys@);
        let mut i: usize = 0;
        while i < self.arrived_keys.len()
            invariant
                i <= self.arrived_keys.len(),
                all == texts(self.arrived_keys@),
                self@ == old(self)@,
                forall|k: int| 0 <= k < i ==> #[trigger] all[k] != key@,
            decreases self.arrived_keys.len() - i,
        {
            if self.arrived_keys[i] == *key {
                assert(all[i as int] == key@);
                return;
            }
            i += 1;
        }
        self.arrived_keys.push(key.clone());
        assert(texts(self.arrived_keys@) =~= all.push(key@));
    }

    /// Report an arrival.
    pub fn arrived(&mut self, facts: &DeviceFacts)
        requires
            old(self)@.has_room(1),
        ensures
            final(self)@ == old(self)@.arrived(facts@),
    {
        proof {
            reveal(DryView::arrived);
        }
        let key = facts.key();
        let path = join_path(self.mount_root.as_str(), key.as_str());
        self.tally.arrivals += 1;
        self.event_header("PLUGGED IN", facts);
        self.facts(facts, true);
        self.field("mount key", key.as_str());
        self.field("would mount at", path.as_str());

        if !self.open.insert(key.as_str()) {
            let mut note = "    Note: ".to_string();
            note.append(key.as_str());
            note.append(" is already down as arrived (at ");
            note.append(path.as_str());
            note.append("). The daemon would keep the first mount and ignore this one.");
            self.line(note.as_str());
        }
        self.remember(&key);
        self.running_total();
    }

    /// The paths of everything that would be mounted, sorted.
    fn open_paths(&self) -> (paths: Vec<String>)
        ensures
            texts(paths@) == mount_paths(self@.mount_root, self@.open),
    {
        let open = self.open.as_vec();
        let mut paths: Vec<String> = Vec::new();
        let mut i: usize = 0;
        while i < open.len()
            invariant
                i <= open.len(),
                paths.len() == i,
                texts(open@) == self@.open,
                forall|k: int|
                    0 <= k < i ==> (#[trigger] paths@[k])@ == path_join(
                        self@.mount_root,
                        self@.open[k],
                    ),
            decreases open.len() - i,
        {
            assert(self@.open[i as int] == open@[i as int]@);
            paths.push(join_path(self.mount_root.as_str(), open[i].as_str()));
            i += 1;
        }
        assert(texts(paths@) =~= mount_paths(self@.mount_root, self@.open));
        paths
    }

    /// Report a departure, and say whether it matched. Returns the verdict.
    pub fn left(&mut self, facts: &DeviceFacts) -> (verdict: DepartureVerdict)
        requires
            old(self)@.has_room(1),
        ensures
            verdict@ == old(self)@.verdict(facts@.key()),
            final(self)@ == old(self)@.left(facts@),
    {
        proof {
            reveal(DryView::left);
        }
        let key = facts.key();
        self.tally.departures += 1;
        self.event_header("UNPLUGGED", facts);
        self.facts(facts, false);
        self.field("mount key", key.as_str());

        let verdict = if self.open.remove(key.as_str()) {
            let path = join_path(self.mount_root.as_str(), key.as_str());
            self.report_match(path.as_str());
            DepartureVerdict::Matched(path)
        } else if self.open.as_vec().len() == 0 {
            self.report_nothing(key.as_str());
            DepartureVerdict::NothingToUnmount
        } else {
            let leaked = self.open_paths();
            self.report_leak(key.as_str(), &leaked);
            DepartureVerdict::WouldLeak(leaked)
        };
        self.running_total();
        verdict
    }

    fn report_match(&mut self, path: &str)
        requires
            old(self)@.tally.matched < usize::MAX,
        ensures
            final(self)@ == old(self)@.matched(path@),
    {
        self.tally.matched += 1;
        let mut text = ">>> MATCHES the arrival: the daemon would unmount ".to_string();
        text.append(path);
        text.append(" <<<");
        self.line(text.as_str());
    }

    fn report_leak(&mut self, key: &str, leaked: &Vec<String>)
        requires
            old(self)@.tally.unmatched < usize::MAX,
        ensures
            final(self)@ == old(self)@.would_leak(key@, texts(leaked@)),
    {
        self.tally.unmatched += 1;
        self.line("!!!");
        let mut text = "!!! NO MATCH - nothing arrived with the key ".to_string();
        text.append(key);
        text.append(", so this departure");
        self.line(text.as_str());
        self.line("!!! would take nothing down. These mounts would leak:");
        self.lines("!!!     ", leaked);
        proof {
            lemma_lines_keep(
                old(self)@.would_leak_head(key@),
                "!!!     "@,
                texts(leaked@),
            );
        }
        let mut text = "!!! Keys seen arriving: ".to_string();
        text.append(join_texts(&self.arrived_keys, ", ").as_str());
        self.line(text.as_str());
        self.line("!!! This is the bug --dry-run looks for. Please report it.");
        self.line("!!!");
    }

    fn report_nothing(&mut self, key: &str)
        requires
            old(self)@.tally.unmatched < usize::MAX,
        ensures
            final(self)@ == old(self)@.nothing_to_unmount(key@),
    {
        self.tally.unmatched += 1;
        let mut text = "--- NO MATCH for ".to_string();
        text.append(key);
        text.append(", but nothing is mounted, so nothing leaks.");
        self.line(text.as_str());
        self.line(
            "--- A departure with no arrival behind it: the device left twice, or it went away before the watch ever reported it.",
        );
    }

    /// A line with a count.
    fn count_line(&mut self, name: &str, n: usize)
        ensures
            final(self)@ == old(self)@.said(name@ + decimal(n as nat)),
    {
        let mut text = name.to_string();
        push_decimal(&mut text, n as u64);
        self.line(text.as_str());
    }

    /// The closing report: the thing to read after a few plug cycles.
    pub fn summary(&mut self, reason: &str)
        ensures
            final(self)@ == old(self)@.summary(reason@),
    {
        proof {
            reveal(DryView::summary);
        }
        let tally = self.tally;
        self.line("");
        let mut text = "=== Dry run over: ".to_string();
        text.append(reason);
        text.append(" ===");
        self.line(text.as_str());
        self.count_line("  Arrivals:   ", tally.arrivals);
        self.count_line("  Departures: ", tally.departures);
        self.count_line("  Matched:    ", tally.matched);
        self.count_line("  Unmatched:  ", tally.unmatched);
        let mut text = "  Would be mounted now: ".to_string();
        let open = self.open.as_vec();
        if open.len() == 0 {
            text.append("nothing");
        } else {
            text.append(join_texts(open, ", ").as_str());
        }
        self.line(text.as_str());
        self.line("");
        if tally.unmatched > 0 {
            self.line(
                "PROBLEM: a departure didn't match its arrival, so the daemon would leak a mount for this device. The fields above show which one disagreed.",
            );
        } else if tally.departures > 0 {
            self.line(
                "All good: every departure matched an arrival, so the daemon takes the right mount down for this device.",
            );
        } else if tally.arrivals > 0 {
            self.line(
                "No departures seen. Unplug the device while this is running to check the half that matters.",
            );
        } else {
            self.line(
                "No devices seen at all. Check the phone is unlocked and set to \"File Transfer\", and try RUST_LOG=debug.",
            );
        }
        self.line("");
    }

    /// Reports one command. `true` once the run is over.
    pub fn step(&mut self, command: &DryRunCommand) -> (over: bool)
        requires
            old(self)@.has_room(1),
        ensures
            over == (command is Stop),
            final(self)@ == old(self)@.after(command@),
    {
        match command {
            DryRunCommand::Arrived(facts) => {
                self.arrived(facts);
                false
            },
            DryRunCommand::Left(facts) => {
                self.left(facts);
                false
            },
            DryRunCommand::Stop(reason) => {
                self.summary(reason.as_str());
                true
            },
        }
    }

    /// Reports commands until one says to stop or there are no more, then the summary. Returns
    /// everything reported.
    pub fn run(self, commands: &Vec<DryRunCommand>) -> (output: String)
        requires
            self@.has_room(commands.len() as int),
        ensures
            output@ == self@.banner().after_all(command_views(commands@)).output,
    {
        let mut dry = self;
        dry.banner();
        let ghost all = command_views(commands@);
        let ghost start = dry@;
        let mut i: usize = 0;
        assert(all.skip(0) =~= all);
        while i < commands.len()
            invariant
                i <= commands.len(),
                all == command_views(commands@),
                start == self@.banner(),
                dry@.has_room(commands.len() - i),
                start.after_all(all) == dry@.after_all(all.skip(i as int)),
            decreases commands.len() - i,
        {
            let ghost before = dry@;
            assert(all.skip(i as int).drop_first() =~= all.skip(i + 1));
            let over = dry.step(&commands[i]);
            proof {
                lemma_one_event(before, commands@[i as int]@);
            }
            if over {
                return dry.take_output();
            }
            i += 1;
        }
        dry.summary("the device watch stopped");
        dry.take_output()
    }
}

/// What one command counts.
proof fn lemma_one_event(view: DryView, command: CommandView)
    requires
        view.has_room(1),
    ensures
        ({
            let after = view.after(command);
            &&& after.mount_root == view.mount_root
            &&& command is Stop ==> after.tally == view.tally && after.events == view.events
            &&& !(command is Stop) ==> after.events == view.events + 1
            &&& after.tally.arrivals == view.tally.arrivals + if command is Arrived {
                1int
            } else {
                0
            }
            &&& after.tally.departures == view.tally.departures + if command is Left {
                1int
            } else {
                0
            }
            &&& after.tally.matched + after.tally.unmatched == view.tally.matched
                + view.tally.unmatched + if command is Left {
                1int
            } else {
                0
            }
            &&& view.tally.matched <= after.tally.matched
            &&& view.tally.unmatched <= after.tally.unmatched
        }),
{
    reveal(DryView::arrived);
    reveal(DryView::left);
    reveal(DryView::summary);
    if let CommandView::Left(facts) = command {
        let key = facts.key();
        let told = DryView {
            tally: Tally { departures: (view.tally.departures + 1) as usize, ..view.tally },
            ..view
        }.event_header("UNPLUGGED"@, facts).facts(facts, false).field("mount key"@, key);
        lemma_lines_keep(
            told.would_leak_head(key),
            "!!!     "@,
            mount_paths(view.mount_root, view.open),
        );
    }
}

/// Every event is counted once: an arrival or a departure, and each departure as matched or not.
pub proof fn every_event_is_counted(view: DryView, command: CommandView)
    requires
        view.has_room(1),
        view.tally.arrivals + view.tally.departures == view.events,
        view.tally.matched + view.tally.unmatched == view.tally.departures,
    ensures
        ({
            let after = view.after(command);
            &&& after.tally.arrivals + after.tally.departures == after.events
            &&& after.tally.matched + after.tally.unmatched == after.tally.departures
        }),
{
    lemma_one_event(view, command);
}

/// A departure that reports the same identity as an arrival matches it, and takes down the mount
/// that the arrival made, whatever was plugged in before. Of a serial number only what is
/// [usable](crate::daemon::facts::usable) counts.
pub proof fn departures_match_their_arrival(view: DryView, arrival: FactsView, departure: FactsView)
    requires
        view.has_room(1),
        sorted(view.open),
        usable(arrival.serial) == usable(departure.serial),
        arrival.vendor_id == departure.vendor_id,
        arrival.product_id == departure.product_id,
        arrival.location_id == departure.location_id,
    ensures
        view.arrived(arrival).verdict(departure.key()) == VerdictView::Matched(
            path_join(view.mount_root, arrival.key()),
        ),
{
    reveal(DryView::arrived);
    let key = arrival.key();
    sorted_keys_are_found(view.open, key);
    assert(insert_key(view.open, key)[crate::daemon::keys::slot(view.open, key)] == key);
    keys_depend_on_identity_alone(arrival, departure);
    lemma_one_event(view, CommandView::Arrived(arrival));
}

/// Whatever is reported, the keys that would be mounted stay sorted, each once.
pub proof fn open_keys_stay_sorted(view: DryView, command: CommandView)
    requires
        view.has_room(1),
        sorted(view.open),
    ensures
        sorted(view.after(command).open),
{
    reveal(DryView::arrived);
    reveal(DryView::left);
    reveal(DryView::summary);
    match command {
        CommandView::Arrived(facts) => {
            sorted_keys_stay_sorted(view.open, facts.key());
        },
        CommandView::Left(facts) => {
            let key = facts.key();
            sorted_keys_stay_sorted(view.open, key);
            let told = DryView {
                tally: Tally { departures: (view.tally.departures + 1) as usize, ..view.tally },
                ..view
            }.event_header("UNPLUGGED"@, facts).facts(facts, false).field("mount key"@, key);
            lemma_lines_keep(
                told.would_leak_head(key),
                "!!!     "@,
                mount_paths(view.mount_root, view.open),
            );
        },
        CommandView::Stop(_) => {},
    }
}

/// What a departure is judged as: matched exactly where its key arrived and has not left, and then by
/// the path of that mount; a leak of every mount where others are open; and nothing to unmount where
/// none is.
pub proof fn departures_are_judged_by_what_is_open(view: DryView, key: Seq<char>, i: int)
    ensures
        match view.verdict(key) {
            VerdictView::Matched(path) => view.open.contains(key) && path == path_join(
                view.mount_root,
                key,
            ),
            VerdictView::WouldLeak(paths) => {
                &&& !view.open.contains(key)
                &&& view.open.len() > 0
                &&& paths.len() == view.open.len()
                &&& 0 <= i < paths.len() ==> paths[i] == path_join(view.mount_root, view.open[i])
            },
            VerdictView::NothingToUnmount => view.open.len() == 0,
        },
{
}

/// What an arrival and a departure change of what would be mounted: an arrival adds its key, a
/// departure takes it out, and every other key stays.
pub proof fn arrivals_and_departures_change_one_key(
    view: DryView,
    facts: FactsView,
    other: Seq<char>,
)
    requires
        view.has_room(1),
        sorted(view.open),
    ensures
        view.arrived(facts).open.contains(facts.key()),
        !view.left(facts).open.contains(facts.key()),
        other != facts.key() ==> (view.arrived(facts).open.contains(other)
            <==> view.open.contains(other)),
        other != facts.key() ==> (view.left(facts).open.contains(other) <==> view.open.contains(
            other,
        )),
        view.arrived(facts).tally.arrivals == view.tally.arrivals + 1,
        view.left(facts).tally.departures == view.tally.departures + 1,
        view.left(facts).tally.matched == view.tally.matched + if view.open.contains(facts.key()) {
            1int
        } else {
            0
        },
        view.left(facts).tally.unmatched == view.tally.unmatched + if view.open.contains(
            facts.key(),
        ) {
            0int
        } else {
            1
        },
        view.arrived(facts).arrived_keys.contains(facts.key()),
        view.arrived(facts).mount_root == view.mount_root,
        view.left(facts).mount_root == view.mount_root,
{
    reveal(DryView::arrived);
    reveal(DryView::left);
    let key = facts.key();
    sorted_keys_stay_sorted(view.open, key);
    sorted_keys_are_found(view.open, key);
    let told = DryView {
        tally: Tally { departures: (view.tally.departures + 1) as usize, ..view.tally },
        ..view
    }.event_header("UNPLUGGED"@, facts).facts(facts, false).field("mount key"@, key);
    lemma_lines_keep(
        told.would_leak_head(key),
        "!!!     "@,
        mount_paths(view.mount_root, view.open),
    );
    if !view.open.contains(key) {
        let after = insert_key(view.open, key);
        assert(after.to_set().contains(key) && (after.to_set().contains(other)
            <==> view.open.to_set().insert(key).contains(other)));
    } else {
        let after = drop_key(view.open, key);
        assert(after.to_set().contains(key) <==> view.open.to_set().remove(key).contains(key));
        assert(after.to_set().contains(other) <==> view.open.to_set().remove(key).contains(other));
    }
    if !view.arrived_keys.contains(key) {
        assert(view.arrived_keys.push(key).last() == key);
    }
}

/// Whether a text is somewhere in what was reported.
pub open spec fn tells(view: DryView, text: Seq<char>) -> bool {
    exists|k: int|
        0 <= k && k + text.len() <= view.output.len() && #[trigger] view.output.subrange(
            k,
            k + text.len(),
        ) == text
}

/// Whether `later` reports what `view` reported and possibly more.
pub open spec fn goes_on(view: DryView, later: DryView) -> bool {
    view.output.len() <= later.output.len() && later.output.take(view.output.len() as int)
        == view.output
}

proof fn lemma_goes_on(a: DryView, b: DryView, c: DryView)
    requires
        goes_on(a, b),
        goes_on(b, c),
    ensures
        goes_on(a, c),
{
    assert(c.output.take(a.output.len() as int) =~= b.output.take(a.output.len() as int));
}

proof fn lemma_told(view: DryView, later: DryView, text: Seq<char>)
    requires
        tells(view, text),
        goes_on(view, later),
    ensures
        tells(later, text),
{
    let k = choose|k: int|
        0 <= k && k + text.len() <= view.output.len() && #[trigger] view.output.subrange(
            k,
            k + text.len(),
        ) == text;
    assert(later.output.subrange(k, k + text.len()) =~= later.output.take(
        view.output.len() as int,
    ).subrange(k, k + text.len()));
}

proof fn lemma_said(view: DryView, text: Seq<char>)
    ensures
        goes_on(view, view.said(text)),
        tells(view.said(text), text),
{
    let after = view.said(text);
    let k = view.output.len() as int;
    assert(after.output.take(k) =~= view.output);
    assert(after.output.subrange(k, k + text.len()) =~= text);
}

proof fn lemma_said_each(view: DryView, prefix: Seq<char>, lines: Seq<Seq<char>>)
    ensures
        goes_on(view, view.said_each(prefix, lines)),
        forall|i: int|
            0 <= i < lines.len() ==> tells(view.said_each(prefix, lines), prefix
                + #[trigger] lines[i]),
    decreases lines.len(),
{
    if lines.len() == 0 {
        assert(view.output.take(view.output.len() as int) =~= view.output);
    } else {
        let init = lines.drop_last();
        let before = view.said_each(prefix, init);
        let after = view.said_each(prefix, lines);
        lemma_said_each(view, prefix, init);
        lemma_said(before, prefix + lines.last());
        lemma_goes_on(view, before, after);
        assert forall|i: int| 0 <= i < lines.len() implies tells(
            after,
            prefix + #[trigger] lines[i],
        ) by {
            if i < init.len() {
                assert(lines[i] == init[i]);
                lemma_told(before, after, prefix + init[i]);
            }
        }
    }
}

proof fn lemma_field(view: DryView, name: Seq<char>, value: Seq<char>)
    ensures
        goes_on(view, view.field(name, value)),
        tells(view.field(name, value), value),
{
    let text = "    "@ + name + padding(name.len() as int, FIELD as int) + value;
    lemma_said(view, text);
    let after = view.said(text);
    let k = view.output.len() + text.len() - value.len();
    assert(after.output.subrange(k, k + value.len()) =~= value);
}

proof fn lemma_head(view: DryView, what: Seq<char>, facts: FactsView, full: bool)
    ensures
        goes_on(view, view.event_header(what, facts).facts(facts, full)),
{
    let counted = DryView { events: (view.events + 1) as usize, ..view };
    let rule = "------------------------------------------------------------"@;
    let ruled = counted.said(rule);
    let title = "#"@ + decimal(counted.events as nat) + "  "@ + what + padding(
        what.len() as int,
        10,
    ) + "  "@ + facts.headline();
    lemma_said(counted, rule);
    lemma_said(ruled, title);
    let headed = ruled.said(title);
    assert(goes_on(view, counted)) by {
        assert(view.output.take(view.output.len() as int) =~= view.output);
    }
    lemma_goes_on(view, counted, ruled);
    lemma_goes_on(view, ruled, headed);
    let a = headed.field("serial"@, or_unreported(facts.serial));
    lemma_field(headed, "serial"@, or_unreported(facts.serial));
    lemma_goes_on(view, headed, a);
    let ids = hex4(facts.vendor_id as int) + ":"@ + hex4(facts.product_id as int);
    let b = a.field("vendor:product"@, ids);
    lemma_field(a, "vendor:product"@, ids);
    lemma_goes_on(view, a, b);
    let c = b.field("location id"@, decimal(facts.location_id as nat));
    lemma_field(b, "location id"@, decimal(facts.location_id as nat));
    lemma_goes_on(view, b, c);
    let d = c.field("manufacturer"@, or_unreported(facts.manufacturer));
    lemma_field(c, "manufacturer"@, or_unreported(facts.manufacturer));
    lemma_goes_on(view, c, d);
    let e = d.field("product"@, or_unreported(facts.product));
    lemma_field(d, "product"@, or_unreported(facts.product));
    lemma_goes_on(view, d, e);
    if full {
        let f = e.field("usb speed"@, or_unreported(facts.speed));
        lemma_field(e, "usb speed"@, or_unreported(facts.speed));
        lemma_goes_on(view, e, f);
        let g = f.field("matched by"@, or_unreported(facts.match_reason));
        lemma_field(f, "matched by"@, or_unreported(facts.match_reason));
        lemma_goes_on(view, f, g);
    }
}

/// What a departure is reported as: by the mount that it would take down, where it matches one; by
/// every mount that would leak, where it matches none and some are open; and by its key, where nothing
/// is. What was reported before stays.
pub proof fn departures_are_reported(view: DryView, facts: FactsView)
    requires
        view.has_room(1),
    ensures
        goes_on(view, view.left(facts)),
        match view.verdict(facts.key()) {
            VerdictView::Matched(path) => tells(
                view.left(facts),
                ">>> MATCHES the arrival: the daemon would unmount "@ + path + " <<<"@,
            ),
            VerdictView::WouldLeak(paths) => tells(
                view.left(facts),
                "!!! NO MATCH - nothing arrived with the key "@ + facts.key()
                    + ", so this departure"@,
            ) && forall|i: int|
                0 <= i < paths.len() ==> tells(view.left(facts), "!!!     "@ + #[trigger] paths[i]),
            VerdictView::NothingToUnmount => tells(
                view.left(facts),
                "--- NO MATCH for "@ + facts.key()
                    + ", but nothing is mounted, so nothing leaks."@,
            ),
        },
{
    reveal(DryView::left);
    let key = facts.key();
    let counted = DryView {
        tally: Tally { departures: (view.tally.departures + 1) as usize, ..view.tally },
        ..view
    };
    assert(view.output.take(view.output.len() as int) =~= view.output);
    assert(goes_on(view, counted));
    let headed = counted.event_header("UNPLUGGED"@, facts).facts(facts, false);
    lemma_head(counted, "UNPLUGGED"@, facts, false);
    lemma_goes_on(view, counted, headed);
    let told = headed.field("mount key"@, key);
    lemma_field(headed, "mount key"@, key);
    lemma_goes_on(view, headed, told);
    let after = view.left(facts);
    match view.verdict(key) {
        VerdictView::Matched(path) => {
            let text = ">>> MATCHES the arrival: the daemon would unmount "@ + path + " <<<"@;
            let next = DryView {
                open: drop_key(told.open, key),
                tally: Tally { matched: (told.tally.matched + 1) as usize, ..told.tally },
                ..told
            };
            assert(told.output.take(told.output.len() as int) =~= told.output);
            lemma_goes_on(view, told, next);
            lemma_said(next, text);
            let judged = next.said(text);
            lemma_goes_on(view, next, judged);
            lemma_total(judged);
            lemma_goes_on(view, judged, after);
            lemma_told(judged, after, text);
        },
        VerdictView::WouldLeak(paths) => {
            lemma_leak(told, key, paths);
            let judged = told.would_leak(key, paths);
            lemma_goes_on(view, told, judged);
            lemma_total(judged);
            lemma_goes_on(view, judged, after);
            lemma_told(
                judged,
                after,
                "!!! NO MATCH - nothing arrived with the key "@ + key + ", so this departure"@,
            );
            assert forall|i: int| 0 <= i < paths.len() implies tells(
                after,
                "!!!     "@ + #[trigger] paths[i],
            ) by {
                lemma_told(judged, after, "!!!     "@ + paths[i]);
            }
        },
        VerdictView::NothingToUnmount => {
            let text = "--- NO MATCH for "@ + key
                + ", but nothing is mounted, so nothing leaks."@;
            let why = "--- A departure with no arrival behind it: the device left twice, or it went away before the watch ever reported it."@;
            let next = DryView {
                tally: Tally { unmatched: (told.tally.unmatched + 1) as usize, ..told.tally },
                ..told
            };
            assert(told.output.take(told.output.len() as int) =~= told.output);
            lemma_goes_on(view, told, next);
            lemma_said(next, text);
            lemma_goes_on(view, next, next.said(text));
            lemma_said(next.said(text), why);
            let judged = next.said(text).said(why);
            lemma_goes_on(view, next.said(text), judged);
            lemma_told(next.said(text), judged, text);
            lemma_total(judged);
            lemma_goes_on(view, judged, after);
            lemma_told(judged, after, text);
        },
    }
}

proof fn lemma_total(view: DryView)
    ensures
        goes_on(view, view.running_total()),
{
    lemma_said(
        view,
        "    So far: "@ + decimal(view.tally.arrivals as nat) + " arrived, "@ + decimal(
            view.tally.departures as nat,
        ) + " left, "@ + decimal(view.tally.matched as nat) + " matched, "@ + decimal(
            view.tally.unmatched as nat,
        ) + " unmatched, "@ + decimal(view.open.len()) + " would be mounted."@,
    );
}

proof fn lemma_leak(view: DryView, key: Seq<char>, paths: Seq<Seq<char>>)
    ensures
        goes_on(view, view.would_leak(key, paths)),
        tells(
            view.would_leak(key, paths),
            "!!! NO MATCH - nothing arrived with the key "@ + key + ", so this departure"@,
        ),
        forall|i: int|
            0 <= i < paths.len() ==> tells(
                view.would_leak(key, paths),
                "!!!     "@ + #[trigger] paths[i],
            ),
{
    let text = "!!! NO MATCH - nothing arrived with the key "@ + key + ", so this departure"@;
    let intro = "!!! would take nothing down. These mounts would leak:"@;
    let a = DryView {
        tally: Tally { unmatched: (view.tally.unmatched + 1) as usize, ..view.tally },
        ..view
    };
    assert(view.output.take(view.output.len() as int) =~= view.output);
    assert(goes_on(view, a));
    let b = a.said("!!!"@);
    lemma_said(a, "!!!"@);
    lemma_goes_on(view, a, b);
    let c = b.said(text);
    lemma_said(b, text);
    lemma_goes_on(view, b, c);
    let d = c.said(intro);
    lemma_said(c, intro);
    lemma_goes_on(view, c, d);
    lemma_told(c, d, text);
    let e = d.said_each("!!!     "@, paths);
    lemma_said_each(d, "!!!     "@, paths);
    lemma_goes_on(view, d, e);
    lemma_told(d, e, text);
    let seen = "!!! Keys seen arriving: "@ + join(view.arrived_keys, ", "@);
    let f = e.said(seen);
    lemma_said(e, seen);
    lemma_goes_on(view, e, f);
    lemma_told(e, f, text);
    let bug = "!!! This is the bug --dry-run looks for. Please report it."@;
    let g = f.said(bug);
    lemma_said(f, bug);
    lemma_goes_on(view, f, g);
    lemma_told(f, g, text);
    let h = g.said("!!!"@);
    lemma_said(g, "!!!"@);
    lemma_goes_on(view, g, h);
    lemma_told(g, h, text);
    assert(h == view.would_leak(key, paths));
    assert forall|i: int| 0 <= i < paths.len() implies tells(
        h,
        "!!!     "@ + #[trigger] paths[i],
    ) by {
        let line = "!!!     "@ + paths[i];
        lemma_told(e, f, line);
        lemma_told(f, g, line);
        lemma_told(g, h, line);
    }
}

/// What an arrival is reported as: by its key and the path that it would be mounted at. What was
/// reported before stays.
pub proof fn arrivals_are_reported(view: DryView, facts: FactsView)
    requires
        view.has_room(1),
    ensures
        goes_on(view, view.arrived(facts)),
        tells(view.arrived(facts), facts.key()),
        tells(view.arrived(facts), path_join(view.mount_root, facts.key())),
{
    reveal(DryView::arrived);
    let key = facts.key();
    let path = path_join(view.mount_root, key);
    let counted = DryView {
        tally: Tally { arrivals: (view.tally.arrivals + 1) as usize, ..view.tally },
        ..view
    };
    assert(view.output.take(view.output.len() as int) =~= view.output);
    assert(goes_on(view, counted));
    let headed = counted.event_header("PLUGGED IN"@, facts).facts(facts, true);
    lemma_head(counted, "PLUGGED IN"@, facts, true);
    lemma_goes_on(view, counted, headed);
    let keyed = headed.field("mount key"@, key);
    lemma_field(headed, "mount key"@, key);
    lemma_goes_on(view, headed, keyed);
    let told = keyed.field("would mount at"@, path);
    lemma_field(keyed, "would mount at"@, path);
    lemma_goes_on(view, keyed, told);
    lemma_told(keyed, told, key);
    let note = "    Note: "@ + key + " is already down as arrived (at "@ + path
        + "). The daemon would keep the first mount and ignore this one."@;
    let opened = if told.open.contains(key) {
        told.said(note)
    } else {
        DryView { open: insert_key(told.open, key), ..told }
    };
    lemma_said(told, note);
    assert(told.output.take(told.output.len() as int) =~= told.output);
    assert(goes_on(told, opened));
    let seen = if opened.arrived_keys.contains(key) {
        opened
    } else {
        DryView { arrived_keys: opened.arrived_keys.push(key), ..opened }
    };
    assert(opened.output.take(opened.output.len() as int) =~= opened.output);
    assert(goes_on(opened, seen));
    let after = view.arrived(facts);
    lemma_total(seen);
    lemma_goes_on(told, opened, seen);
    lemma_goes_on(told, seen, after);
    lemma_goes_on(view, told, after);
    lemma_told(told, after, key);
    lemma_told(told, after, path);
}

/// What the closing report concludes: that there is a problem exactly where a departure matched
/// nothing, that all is good exactly where departures were seen and each matched, and otherwise what
/// was not seen. Nothing that follows a stop is reported.
pub proof fn runs_are_judged_by_their_departures(
    view: DryView,
    commands: Seq<CommandView>,
    reason: Seq<char>,
    later: Seq<CommandView>,
)
    ensures
        view.tally.unmatched > 0 ==> view.conclusion().len() > 0 && view.conclusion()[0] == 'P',
        view.tally.unmatched == 0 && view.tally.departures > 0 ==> view.conclusion().len() > 0
            && view.conclusion()[0] == 'A',
        view.tally.unmatched == 0 && view.tally.departures == 0 && view.tally.arrivals > 0
            ==> view.conclusion().take(19) == "No departures seen."@,
        view.tally.unmatched == 0 && view.tally.departures == 0 && view.tally.arrivals == 0
            ==> view.conclusion().take(23) == "No devices seen at all."@,
        view.after_all(commands.push(CommandView::Stop(reason)) + later) == view.after_all(
            commands.push(CommandView::Stop(reason)),
        ),
    decreases commands.len(),
{
    reveal_strlit(
        "PROBLEM: a departure didn't match its arrival, so the daemon would leak a mount for this device. The fields above show which one disagreed.",
    );
    reveal_strlit(
        "All good: every departure matched an arrival, so the daemon takes the right mount down for this device.",
    );
    reveal_strlit(
        "No departures seen. Unplug the device while this is running to check the half that matters.",
    );
    reveal_strlit(
        "No devices seen at all. Check the phone is unlocked and set to \"File Transfer\", and try RUST_LOG=debug.",
    );
    reveal_strlit("No departures seen.");
    reveal_strlit("No devices seen at all.");
    let short = commands.push(CommandView::Stop(reason));
    let long = short + later;
    assert(long[0] == short[0]);
    if commands.len() > 0 && !(commands[0] is Stop) {
        let rest = commands.drop_first();
        runs_are_judged_by_their_departures(view.after(commands[0]), rest, reason, later);
        assert(short.drop_first() =~= rest.push(CommandView::Stop(reason)));
        assert(long.drop_first() =~= rest.push(CommandView::Stop(reason)) + later);
    }
}

/// What the closing report tells: why the run is over, all four totals, what would be mounted now, and
/// the conclusion. It changes nothing else.
pub proof fn closing_reports_tell_the_totals(view: DryView, reason: Seq<char>)
    ensures
        ({
            let after = view.summary(reason);
            &&& goes_on(view, after)
            &&& after == (DryView { output: after.output, ..view })
            &&& tells(after, "=== Dry run over: "@ + reason + " ==="@)
            &&& tells(after, "  Arrivals:   "@ + decimal(view.tally.arrivals as nat))
            &&& tells(after, "  Departures: "@ + decimal(view.tally.departures as nat))
            &&& tells(after, "  Matched:    "@ + decimal(view.tally.matched as nat))
            &&& tells(after, "  Unmatched:  "@ + decimal(view.tally.unmatched as nat))
            &&& view.open.len() == 0 ==> tells(after, "  Would be mounted now: "@ + "nothing"@)
            &&& view.open.len() > 0 ==> tells(
                after,
                "  Would be mounted now: "@ + join(view.open, ", "@),
            )
            &&& tells(after, view.conclusion())
        }),
{
    reveal(DryView::summary);
    let over = "=== Dry run over: "@ + reason + " ==="@;
    let t1 = "  Arrivals:   "@ + decimal(view.tally.arrivals as nat);
    let t2 = "  Departures: "@ + decimal(view.tally.departures as nat);
    let t3 = "  Matched:    "@ + decimal(view.tally.matched as nat);
    let t4 = "  Unmatched:  "@ + decimal(view.tally.unmatched as nat);
    let t5 = "  Would be mounted now: "@ + if view.open.len() == 0 {
        "nothing"@
    } else {
        join(view.open, ", "@)
    };
    let end = view.conclusion();
    let z = view.said(""@);
    let a = z.said(over);
    let b = a.said(t1);
    let c = b.said(t2);
    let d = c.said(t3);
    let e = d.said(t4);
    let f = e.said(t5);
    let g = f.said(""@);
    let h = g.said(end);
    let i = h.said(""@);
    assert(i == view.summary(reason));
    lemma_said(h, ""@);
    lemma_said(g, end);
    lemma_said(f, ""@);
    lemma_said(e, t5);
    lemma_said(d, t4);
    lemma_said(c, t3);
    lemma_said(b, t2);
    lemma_said(a, t1);
    lemma_said(z, over);
    lemma_said(view, ""@);
    lemma_told(h, i, end);
    lemma_goes_on(g, h, i);
    lemma_goes_on(f, g, i);
    lemma_told(f, i, t5);
    lemma_goes_on(e, f, i);
    lemma_told(e, i, t4);
    lemma_goes_on(d, e, i);
    lemma_told(d, i, t3);
    lemma_goes_on(c, d, i);
    lemma_told(c, i, t2);
    lemma_goes_on(b, c, i);
    lemma_told(b, i, t1);
    lemma_goes_on(a, b, i);
    lemma_told(a, i, over);
    lemma_goes_on(z, a, i);
    lemma_goes_on(view, z, i);
}

/// Whether a report tells what an event showed of its device: what it is called, its serial number, the
/// numbers of its vendor and product, where it is plugged in, its manufacturer and its product.
pub open spec fn tells_facts(view: DryView, facts: FactsView) -> bool {
    &&& tells(view, facts.headline())
    &&& tells(view, or_unreported(facts.serial))
    &&& tells(view, hex4(facts.vendor_id as int) + ":"@ + hex4(facts.product_id as int))
    &&& tells(view, decimal(facts.location_id as nat))
    &&& tells(view, or_unreported(facts.manufacturer))
    &&& tells(view, or_unreported(facts.product))
}

proof fn lemma_told_facts(view: DryView, later: DryView, facts: FactsView)
    requires
        tells_facts(view, facts),
        goes_on(view, later),
    ensures
        tells_facts(later, facts),
{
    lemma_told(view, later, facts.headline());
    lemma_told(view, later, or_unreported(facts.serial));
    lemma_told(view, later, hex4(facts.vendor_id as int) + ":"@ + hex4(facts.product_id as int));
    lemma_told(view, later, decimal(facts.location_id as nat));
    lemma_told(view, later, or_unreported(facts.manufacturer));
    lemma_told(view, later, or_unreported(facts.product));
}

proof fn lemma_head_tells(view: DryView, what: Seq<char>, facts: FactsView, full: bool)
    ensures
        tells_facts(view.event_header(what, facts).facts(facts, full), facts),
        full ==> tells(
            view.event_header(what, facts).facts(facts, full),
            or_unreported(facts.speed),
        ),
        full ==> tells(
            view.event_header(what, facts).facts(facts, full),
            or_unreported(facts.match_reason),
        ),
{
    let counted = DryView { events: (view.events + 1) as usize, ..view };
    let ruled = counted.said("------------------------------------------------------------"@);
    let title = "#"@ + decimal(counted.events as nat) + "  "@ + what + padding(
        what.len() as int,
        10,
    ) + "  "@ + facts.headline();
    let headed = ruled.said(title);
    lemma_said(ruled, title);
    let k = ruled.output.len() + title.len() - facts.headline().len();
    assert(headed.output.subrange(k, k + facts.headline().len()) =~= facts.headline());
    assert(tells(headed, facts.headline()));
    let ids = hex4(facts.vendor_id as int) + ":"@ + hex4(facts.product_id as int);
    let place = decimal(facts.location_id as nat);
    let a = headed.field("serial"@, or_unreported(facts.serial));
    let b = a.field("vendor:product"@, ids);
    let c = b.field("location id"@, place);
    let d = c.field("manufacturer"@, or_unreported(facts.manufacturer));
    let e = d.field("product"@, or_unreported(facts.product));
    lemma_field(d, "product"@, or_unreported(facts.product));
    lemma_field(c, "manufacturer"@, or_unreported(facts.manufacturer));
    lemma_field(b, "location id"@, place);
    lemma_field(a, "vendor:product"@, ids);
    lemma_field(headed, "serial"@, or_unreported(facts.serial));
    lemma_told(d, e, or_unreported(facts.manufacturer));
    lemma_goes_on(c, d, e);
    lemma_told(c, e, place);
    lemma_goes_on(b, c, e);
    lemma_told(b, e, ids);
    lemma_goes_on(a, b, e);
    lemma_told(a, e, or_unreported(facts.serial));
    lemma_goes_on(headed, a, e);
    lemma_told(headed, e, facts.headline());
    assert(tells_facts(e, facts));
    if full {
        let f = e.field("usb speed"@, or_unreported(facts.speed));
        let g = f.field("matched by"@, or_unreported(facts.match_reason));
        lemma_field(e, "usb speed"@, or_unreported(facts.speed));
        lemma_field(f, "matched by"@, or_unreported(facts.match_reason));
        lemma_told(f, g, or_unreported(facts.speed));
        lemma_goes_on(e, f, g);
        lemma_told_facts(e, g, facts);
    }
}

proof fn lemma_total_tells(view: DryView)
    ensures
        tells(view.running_total(), totals_line(view.running_total())),
{
    lemma_said(view, totals_line(view));
}

/// The line that tells the totals of a report so far.
pub open spec fn totals_line(view: DryView) -> Seq<char> {
    "    So far: "@ + decimal(view.tally.arrivals as nat) + " arrived, "@ + decimal(
        view.tally.departures as nat,
    ) + " left, "@ + decimal(view.tally.matched as nat) + " matched, "@ + decimal(
        view.tally.unmatched as nat,
    ) + " unmatched, "@ + decimal(view.open.len()) + " would be mounted."@
}

/// Arrivals and departures are reported with the facts that their device showed and with the totals as
/// they are then; an arrival also tells the speed of the device and what it was known by.
pub proof fn events_are_reported_with_their_facts(view: DryView, facts: FactsView)
    ensures
        tells_facts(view.arrived(facts), facts),
        tells(view.arrived(facts), or_unreported(facts.speed)),
        tells(view.arrived(facts), or_unreported(facts.match_reason)),
        tells(view.arrived(facts), totals_line(view.arrived(facts))),
        tells_facts(view.left(facts), facts),
        tells(view.left(facts), totals_line(view.left(facts))),
{
    reveal(DryView::arrived);
    reveal(DryView::left);
    let key = facts.key();
    let path = path_join(view.mount_root, key);
    let counted = DryView {
        tally: Tally { arrivals: (view.tally.arrivals + 1) as usize, ..view.tally },
        ..view
    };
    let headed = counted.event_header("PLUGGED IN"@, facts).facts(facts, true);
    lemma_head_tells(counted, "PLUGGED IN"@, facts, true);
    let keyed = headed.field("mount key"@, key);
    lemma_field(headed, "mount key"@, key);
    let told = keyed.field("would mount at"@, path);
    lemma_field(keyed, "would mount at"@, path);
    lemma_goes_on(headed, keyed, told);
    let note = "    Note: "@ + key + " is already down as arrived (at "@ + path
        + "). The daemon would keep the first mount and ignore this one."@;
    let opened = if told.open.contains(key) {
        told.said(note)
    } else {
        DryView { open: insert_key(told.open, key), ..told }
    };
    lemma_said(told, note);
    assert(told.output.take(told.output.len() as int) =~= told.output);
    lemma_goes_on(headed, told, opened);
    let seen = if opened.arrived_keys.contains(key) {
        opened
    } else {
        DryView { arrived_keys: opened.arrived_keys.push(key), ..opened }
    };
    assert(opened.output.take(opened.output.len() as int) =~= opened.output);
    lemma_goes_on(headed, opened, seen);
    let after = view.arrived(facts);
    assert(after == seen.running_total());
    lemma_total(seen);
    lemma_total_tells(seen);
    lemma_goes_on(headed, seen, after);
    lemma_told_facts(headed, after, facts);
    lemma_told(headed, after, or_unreported(facts.speed));
    lemma_told(headed, after, or_unreported(facts.match_reason));
    lemma_departure_tells(view, facts);
}

proof fn lemma_departure_tells(view: DryView, facts: FactsView)
    ensures
        tells_facts(view.left(facts), facts),
        tells(view.left(facts), totals_line(view.left(facts))),
{
    reveal(DryView::left);
    let key = facts.key();
    let counted = DryView {
        tally: Tally { departures: (view.tally.departures + 1) as usize, ..view.tally },
        ..view
    };
    let headed = counted.event_header("UNPLUGGED"@, facts).facts(facts, false);
    lemma_head_tells(counted, "UNPLUGGED"@, facts, false);
    let told = headed.field("mount key"@, key);
    lemma_field(headed, "mount key"@, key);
    assert(told.output.take(told.output.len() as int) =~= told.output);
    let judged = match view.verdict(key) {
        VerdictView::Matched(path) => DryView {
            open: drop_key(told.open, key),
            ..told
        }.matched(path),
        VerdictView::WouldLeak(leaked) => told.would_leak(key, leaked),
        VerdictView::NothingToUnmount => told.nothing_to_unmount(key),
    };
    match view.verdict(key) {
        VerdictView::Matched(path) => {
            let next = DryView {
                open: drop_key(told.open, key),
                tally: Tally { matched: (told.tally.matched + 1) as usize, ..told.tally },
                ..told
            };
            lemma_said(next, ">>> MATCHES the arrival: the daemon would unmount "@ + path + " <<<"@);
            assert(goes_on(told, next));
            lemma_goes_on(told, next, judged);
        },
        VerdictView::WouldLeak(leaked) => {
            lemma_leak(told, key, leaked);
        },
        VerdictView::NothingToUnmount => {
            let text = "--- NO MATCH for "@ + key + ", but nothing is mounted, so nothing leaks."@;
            let next = DryView {
                tally: Tally { unmatched: (told.tally.unmatched + 1) as usize, ..told.tally },
                ..told
            };
            lemma_said(next, text);
            lemma_said(
                next.said(text),
                "--- A departure with no arrival behind it: the device left twice, or it went away before the watch ever reported it."@,
            );
            assert(goes_on(told, next));
            lemma_goes_on(told, next, next.said(text));
            lemma_goes_on(told, next.said(text), judged);
        },
    }
    lemma_total(judged);
    lemma_total_tells(judged);
    let after = view.left(facts);
    assert(after == judged.running_total());
    lemma_goes_on(headed, told, judged);
    lemma_goes_on(headed, judged, after);
    lemma_told_facts(headed, after, facts);
}

} // verus!
