//! The dashboard's decisions: how a `:command` line is split and what it
//! asks for, whether a command needs the real terminal, and which window of
//! log lines is shown. Drawing and running commands stay with the caller.

use vstd::prelude::*;

use crate::text::{chars_of, eq_str, is_whitespace, is_ws, push_str, string_of};

verus! {

/// The splitter's state after some characters: finished words, the word
/// being built, the open quote, and whether a backslash is pending.
pub struct SplitState {
    pub words: Seq<Seq<char>>,
    pub current: Seq<char>,
    pub quote: Option<char>,
    pub escaped: bool,
}

/// One character's effect on the splitter.
pub open spec fn split_step(st: SplitState, c: char) -> SplitState {
    if st.escaped {
        SplitState { current: st.current.push(c), escaped: false, ..st }
    } else if c == '\\' {
        SplitState { escaped: true, ..st }
    } else if (c == '\'' || c == '"') && st.quote == Some(c) {
        SplitState { quote: None, ..st }
    } else if (c == '\'' || c == '"') && st.quote is None {
        SplitState { quote: Some(c), ..st }
    } else if is_ws(c) && st.quote is None {
        if st.current.len() > 0 {
            SplitState { words: st.words.push(st.current), current: seq![], ..st }
        } else {
            st
        }
    } else {
        SplitState { current: st.current.push(c), ..st }
    }
}

/// The splitter's state after all of `s`.
pub open spec fn split_run(s: Seq<char>) -> SplitState
    decreases s.len(),
{
    if s.len() == 0 {
        SplitState { words: seq![], current: seq![], quote: None, escaped: false }
    } else {
        split_step(split_run(s.drop_last()), s.last())
    }
}

/// Shell-like splitting of a command line: whitespace separates words,
/// quotes group them, a backslash takes the next character literally (a
/// trailing one is kept); `Err` names an unclosed quote.
pub open spec fn split_words(line: Seq<char>) -> Result<Seq<Seq<char>>, Seq<char>> {
    let st = split_run(line);
    let current = if st.escaped {
        st.current.push('\\')
    } else {
        st.current
    };
    match st.quote {
        Some(q) => Err("unclosed "@ + seq![q] + " quote"@),
        None => Ok(
            if current.len() > 0 {
                st.words.push(current)
            } else {
                st.words
            },
        ),
    }
}

pub fn split_command_line(line: &str) -> (r: Result<Vec<String>, String>)
    ensures
        match r {
            Ok(ws) => split_words(line@) == Ok::<Seq<Seq<char>>, Seq<char>>(ws@.map_values(|w: String| w@)),
            Err(m) => split_words(line@) == Err::<Seq<Seq<char>>, Seq<char>>(m@),
        },
{
    let cs = chars_of(line);
    let mut words: Vec<Vec<char>> = Vec::new();
    let mut current: Vec<char> = Vec::new();
    let mut quote: Option<char> = None;
    let mut escaped = false;
    let mut i: usize = 0;
    assert(words@.map_values(|w: Vec<char>| w@) =~= Seq::<Seq<char>>::empty());
    assert(current@ =~= Seq::<char>::empty());
    assert(cs@.take(0) =~= Seq::<char>::empty());
    while i < cs.len()
        invariant
            i <= cs.len(),
            cs@ == line@,
            split_run(cs@.take(i as int)) == (SplitState {
                words: words@.map_values(|w: Vec<char>| w@),
                current: current@,
                quote,
                escaped,
            }),
        decreases cs.len() - i,
    {
        let c = cs[i];
        assert(cs@.take(i + 1).drop_last() =~= cs@.take(i as int));
        let ghost before = words@.map_values(|w: Vec<char>| w@);
        if escaped {
            current.push(c);
            escaped = false;
        } else if c == '\\' {
            escaped = true;
        } else if (c == '\'' || c == '"') && quote == Some(c) {
            quote = None;
        } else if (c == '\'' || c == '"') && quote.is_none() {
            quote = Some(c);
        } else if is_whitespace(c) && quote.is_none() {
            if current.len() > 0 {
                let mut taken: Vec<char> = Vec::new();
                std::mem::swap(&mut taken, &mut current);
                words.push(taken);
                assert(words@.map_values(|w: Vec<char>| w@) =~= before.push(taken@));
            }
        } else {
            current.push(c);
        }
        i += 1;
        assert(split_run(cs@.take(i as int)) == (SplitState {
            words: words@.map_values(|w: Vec<char>| w@),
            current: current@,
            quote,
            escaped,
        }));
    }
    assert(cs@.take(cs.len() as int) =~= cs@);
    if escaped {
        current.push('\\');
    }
    match quote {
        Some(q) => {
            let mut m = String::from_str("unclosed ");
            crate::text::push_char(&mut m, q);
            push_str(&mut m, " quote");
            assert(m@ =~= "unclosed "@ + seq![q] + " quote"@);
            return Err(m);
        },
        None => {},
    }
    if current.len() > 0 {
        let ghost before = words@.map_values(|w: Vec<char>| w@);
        let cur = current;
        words.push(cur);
        assert(words@.map_values(|w: Vec<char>| w@) =~= before.push(cur@));
    }
    let mut out: Vec<String> = Vec::new();
    let mut k: usize = 0;
    while k < words.len()
        invariant
            k <= words.len(),
            out@.map_values(|w: String| w@) == words@.map_values(|w: Vec<char>| w@).take(k as int),
        decreases words.len() - k,
    {
        let ghost before = out@.map_values(|w: String| w@);
        assert(words@.map_values(|w: Vec<char>| w@)[k as int] == words@[k as int]@);
        let piece = string_of(words[k].as_slice());
        out.push(piece);
        assert(out@.map_values(|w: String| w@) =~= before.push(piece@));
        assert(words@.map_values(|w: Vec<char>| w@).take(k + 1) =~= words@.map_values(|w: Vec<char>| w@).take(k as int).push(words@[k as int]@));
        k += 1;
    }
    assert(words@.map_values(|w: Vec<char>| w@).take(words.len() as int) =~= words@.map_values(|w: Vec<char>| w@));
    Ok(out)
}

/// Whether a pass-through command needs the real terminal: `install` and
/// `uninstall` always; `update` unless it only checks or needs no prompt.
pub open spec fn needs_terminal(args: Seq<Seq<char>>) -> bool {
    if args.len() == 0 {
        false
    } else if args[0] == "install"@ || args[0] == "uninstall"@ {
        true
    } else if args[0] == "update"@ {
        !((exists|i: int| 1 <= i < args.len() && #[trigger] args[i] == "--check"@) || (exists|i: int|
            0 <= i < args.len() && (#[trigger] args[i] == "-y"@ || args[i] == "--yes"@)) || (exists|i: int|
            1 <= i < args.len() && #[trigger] args[i] == "--auto"@))
    } else {
        false
    }
}

/// The texts of a list of strings.
pub open spec fn arg_texts(args: Seq<String>) -> Seq<Seq<char>> {
    args.map_values(|x: String| x@)
}

fn any_arg(args: &[String], from: usize, a: &str, b: &str) -> (r: bool)
    ensures
        r == exists|i: int|
            from <= i < args.len() && (#[trigger] arg_texts(args@)[i] == a@
                || arg_texts(args@)[i] == b@),
{
    let mut i = from;
    while i < args.len()
        invariant
            from <= i || i == from,
            forall|j: int|
                from <= j < i && j < args.len() ==> !(#[trigger] arg_texts(args@)[j] == a@
                    || arg_texts(args@)[j] == b@),
        decreases args.len() - i,
    {
        assert(arg_texts(args@)[i as int] == args@[i as int]@);
        if crate::text::str_eq(args[i].as_str(), a) || crate::text::str_eq(args[i].as_str(), b) {
            return true;
        }
        i += 1;
    }
    false
}

pub fn should_run_attached(args: &[String]) -> (r: bool)
    ensures
        r == needs_terminal(arg_texts(args@)),
{
    let ghost av = arg_texts(args@);
    if args.len() == 0 {
        return false;
    }
    assert(av[0] == args@[0]@);
    let first = args[0].as_str();
    if crate::text::str_eq(first, "install") || crate::text::str_eq(first, "uninstall") {
        return true;
    }
    if crate::text::str_eq(first, "update") {
        let check = any_arg(args, 1, "--check", "--check");
        let yes = any_arg(args, 0, "-y", "--yes");
        let auto = any_arg(args, 1, "--auto", "--auto");
        return !(check || yes || auto);
    }
    false
}

/// The visible window of a log: `(start, end, scroll, max_scroll)` for
/// `line_count` lines, `visible` rows (at least one) and a requested scroll
/// back from the newest line, clamped.
pub open spec fn window_bounds(line_count: nat, visible: nat, requested: nat) -> (nat, nat, nat, nat) {
    if line_count == 0 {
        (0, 0, 0, 0)
    } else {
        let v = if visible < 1 {
            1
        } else {
            visible
        };
        let max_scroll: nat = if line_count > v {
            (line_count - v) as nat
        } else {
            0
        };
        let scroll = if requested < max_scroll {
            requested
        } else {
            max_scroll
        };
        let end = (line_count - scroll) as nat;
        let start: nat = if end > v {
            (end - v) as nat
        } else {
            0
        };
        (start, end, scroll, max_scroll)
    }
}

/// The help page's scroll and how far it can scroll: the page scrolls by
/// the lines beyond its visible rows, and the requested scroll is held to
/// that and to what a terminal row offset holds (`u16`).
pub open spec fn help_window_spec(line_count: nat, visible: nat, requested: nat) -> (nat, nat) {
    let max_scroll: nat = if line_count > visible {
        (line_count - visible) as nat
    } else {
        0
    };
    let held: nat = if requested < max_scroll {
        requested
    } else {
        max_scroll
    };
    (if held > 65535 {
        65535
    } else {
        held
    }, max_scroll)
}

pub fn help_window(line_count: usize, visible: usize, requested: usize) -> (r: (usize, usize))
    ensures
        (r.0 as nat, r.1 as nat) == help_window_spec(line_count as nat, visible as nat, requested as nat),
{
    let max_scroll = line_count.saturating_sub(visible);
    let held = if requested < max_scroll {
        requested
    } else {
        max_scroll
    };
    (if held > 65535 {
        65535
    } else {
        held
    }, max_scroll)
}

/// The help page's title: its position when it can scroll.
pub open spec fn help_title_text(scroll: nat, max_scroll: nat) -> Seq<char> {
    if max_scroll > 0 {
        " help ("@ + crate::text::dec(scroll) + "/"@ + crate::text::dec(max_scroll) + ") \u{2014} \u{2191}/\u{2193} scroll \u{b7} Esc home "@
    } else {
        " help \u{2014} Esc home "@
    }
}

pub fn help_title(scroll: usize, max_scroll: usize) -> (r: String)
    ensures
        r@ == help_title_text(scroll as nat, max_scroll as nat),
{
    if max_scroll > 0 {
        let mut t = String::from_str(" help (");
        crate::text::push_dec(&mut t, scroll as u64);
        push_str(&mut t, "/");
        crate::text::push_dec(&mut t, max_scroll as u64);
        push_str(&mut t, ") \u{2014} \u{2191}/\u{2193} scroll \u{b7} Esc home ");
        t
    } else {
        String::from_str(" help \u{2014} Esc home ")
    }
}

pub fn log_window_bounds(line_count: usize, visible: usize, requested_scroll: usize) -> (r: (usize, usize, usize, usize))
    ensures
        (r.0 as nat, r.1 as nat, r.2 as nat, r.3 as nat) == window_bounds(
            line_count as nat,
            visible as nat,
            requested_scroll as nat,
        ),
{
    if line_count == 0 {
        return (0, 0, 0, 0);
    }
    let visible = if visible < 1 {
        1
    } else {
        visible
    };
    let max_scroll = line_count.saturating_sub(visible);
    let scroll = if requested_scroll < max_scroll {
        requested_scroll
    } else {
        max_scroll
    };
    let end = line_count.saturating_sub(scroll);
    let start = end.saturating_sub(visible);
    (start, end, scroll, max_scroll)
}

/// The window always lies within the log and shows at most `visible` rows,
/// ending `scroll` lines before the newest.
pub proof fn law_window_within_log(line_count: nat, visible: nat, requested: nat)
    ensures
        ({
            let (start, end, scroll, max_scroll) = window_bounds(line_count, visible, requested);
            &&& start <= end <= line_count
            &&& scroll <= max_scroll
            &&& end + scroll == line_count
            &&& end - start <= if visible < 1 {
                1
            } else {
                visible
            }
        }),
{
}

/// What the Rust `Debug` rendering of a text is (`format!("{:?}", s)`).
pub uninterp spec fn debug_text(s: Seq<char>) -> Seq<char>;

/// `format!("{:?}", s)` for a string. The contract names the result only.
#[verifier::external_body]
fn debug_quoted(s: &str) -> (r: String)
    ensures
        r@ == debug_text(s@),
{
    format!("{s:?}")
}

/// An argument as shown to the user: quoted (Rust `Debug`) when it holds
/// whitespace.
pub open spec fn shown_arg(a: Seq<char>) -> Seq<char> {
    if exists|i: int| 0 <= i < a.len() && is_ws(#[trigger] a[i]) {
        debug_text(a)
    } else {
        a
    }
}

/// Arguments shown joined by spaces.
pub open spec fn shown_args(args: Seq<Seq<char>>) -> Seq<char>
    decreases args.len(),
{
    if args.len() == 0 {
        seq![]
    } else if args.len() == 1 {
        shown_arg(args[0])
    } else {
        shown_args(args.drop_last()) + " "@ + shown_arg(args.last())
    }
}

fn has_whitespace(s: &[char]) -> (r: bool)
    ensures
        r == exists|i: int| 0 <= i < s.len() && is_ws(#[trigger] s@[i]),
{
    let mut i: usize = 0;
    while i < s.len()
        invariant
            i <= s.len(),
            forall|j: int| 0 <= j < i ==> !is_ws(#[trigger] s@[j]),
        decreases s.len() - i,
    {
        if is_whitespace(s[i]) {
            return true;
        }
        i += 1;
    }
    false
}

pub fn display_args(args: &[String]) -> (r: String)
    ensures
        r@ == shown_args(args@.map_values(|a: String| a@)),
{
    let ghost av = args@.map_values(|a: String| a@);
    let mut s = String::new();
    let mut i: usize = 0;
    proof {
        reveal_strlit("");
    }
    while i < args.len()
        invariant
            i <= args.len(),
            av == args@.map_values(|a: String| a@),
            s@ == shown_args(av.take(i as int)),
        decreases args.len() - i,
    {
        if i > 0 {
            push_str(&mut s, " ");
        }
        let cs = chars_of(args[i].as_str());
        if has_whitespace(cs.as_slice()) {
            let q = debug_quoted(args[i].as_str());
            push_str(&mut s, q.as_str());
        } else {
            push_str(&mut s, args[i].as_str());
        }
        proof {
            assert(av[i as int] == args@[i as int]@);
            assert(av.take(i + 1).drop_last() =~= av.take(i as int));
            if i == 0 {
                assert(av.take(1) =~= seq![av[0]]);
                assert(shown_args(av.take(0)) =~= Seq::<char>::empty());
            }
            assert(s@ =~= shown_args(av.take(i + 1)));
        }
        i += 1;
    }
    assert(av.take(args.len() as int) =~= av);
    s
}

// ── Commands ─────────────────────────────────────────────────────────────────

/// What a `:command` line asks the dashboard to do.
#[derive(Debug, Clone, PartialEq, Eq)]
pub enum CommandDecision {
    /// Only show this status message.
    Status(String),
    Help,
    Quit,
    StartBridge,
    StopBridge,
    RestartBridge,
    SyncAll,
    Logs,
    Home,
    Setup,
    Scan,
    /// Run `fbsy <args>` on the real terminal.
    Attach(Vec<String>),
    /// Run `fbsy <args>` and capture its output.
    Capture(Vec<String>),
}

/// The model of a command decision.
pub enum DecisionView {
    Status(Seq<char>),
    Help,
    Quit,
    StartBridge,
    StopBridge,
    RestartBridge,
    SyncAll,
    Logs,
    Home,
    Setup,
    Scan,
    Attach(Seq<Seq<char>>),
    Capture(Seq<Seq<char>>),
}

impl View for CommandDecision {
    type V = DecisionView;

    open spec fn view(&self) -> DecisionView {
        match self {
            CommandDecision::Status(m) => DecisionView::Status(m@),
            CommandDecision::Help => DecisionView::Help,
            CommandDecision::Quit => DecisionView::Quit,
            CommandDecision::StartBridge => DecisionView::StartBridge,
            CommandDecision::StopBridge => DecisionView::StopBridge,
            CommandDecision::RestartBridge => DecisionView::RestartBridge,
            CommandDecision::SyncAll => DecisionView::SyncAll,
            CommandDecision::Logs => DecisionView::Logs,
            CommandDecision::Home => DecisionView::Home,
            CommandDecision::Setup => DecisionView::Setup,
            CommandDecision::Scan => DecisionView::Scan,
            CommandDecision::Attach(a) => DecisionView::Attach(a@.map_values(|x: String| x@)),
            CommandDecision::Capture(a) => DecisionView::Capture(a@.map_values(|x: String| x@)),
        }
    }
}

/// The decision for a split command line (a leading `fbsy` dropped).
pub open spec fn decision_for(words: Seq<Seq<char>>) -> DecisionView {
    let args = if words.len() > 0 && words[0] == "fbsy"@ {
        words.drop_first()
    } else {
        words
    };
    if args.len() == 0 {
        DecisionView::Status("type a command, for example: start"@)
    } else {
        let c = args[0];
        if c == "help"@ || c == "?"@ {
            DecisionView::Help
        } else if c == "quit"@ || c == "q"@ || c == "exit"@ {
            DecisionView::Quit
        } else if c == "start"@ || c == "s"@ {
            DecisionView::StartBridge
        } else if c == "stop"@ || c == "x"@ {
            DecisionView::StopBridge
        } else if c == "restart"@ || c == "r"@ {
            DecisionView::RestartBridge
        } else if c == "sync"@ || c == "y"@ {
            DecisionView::SyncAll
        } else if c == "l"@ || c == "logs"@ {
            DecisionView::Logs
        } else if c == "home"@ || c == "h"@ {
            DecisionView::Home
        } else if c == "setup"@ || c == "config"@ {
            DecisionView::Setup
        } else if c == "scan"@ {
            DecisionView::Scan
        } else if c == "install"@ || c == "uninstall"@ || c == "update"@ {
            if needs_terminal(args) {
                DecisionView::Attach(args)
            } else {
                DecisionView::Capture(args)
            }
        } else {
            DecisionView::Status("error: unrecognized command '"@ + c + "'"@)
        }
    }
}

/// What a `:command` line asks for; a line that cannot be split shows the
/// splitter's message.
pub open spec fn command_decision_of(line: Seq<char>) -> DecisionView {
    match split_words(line) {
        Err(m) => DecisionView::Status(m),
        Ok(words) => decision_for(words),
    }
}

pub fn command_decision(line: &str) -> (r: CommandDecision)
    ensures
        r@ == command_decision_of(line@),
{
    let mut args = match split_command_line(line) {
        Ok(a) => a,
        Err(m) => {
            return CommandDecision::Status(m);
        },
    };
    let ghost words = args@.map_values(|a: String| a@);
    if args.len() > 0 && crate::text::str_eq(args[0].as_str(), "fbsy") {
        assert(words[0] == args@[0]@);
        args.remove(0);
        assert(args@.map_values(|a: String| a@) =~= words.drop_first());
    } else {
        proof {
            if words.len() > 0 {
                assert(words[0] == args@[0]@);
            }
        }
    }
    let ghost av = args@.map_values(|a: String| a@);
    if args.len() == 0 {
        return CommandDecision::Status(String::from_str("type a command, for example: start"));
    }
    assert(av[0] == args@[0]@);
    let c = chars_of(args[0].as_str());
    let c = c.as_slice();
    if eq_str(c, "help") || eq_str(c, "?") {
        CommandDecision::Help
    } else if eq_str(c, "quit") || eq_str(c, "q") || eq_str(c, "exit") {
        CommandDecision::Quit
    } else if eq_str(c, "start") || eq_str(c, "s") {
        CommandDecision::StartBridge
    } else if eq_str(c, "stop") || eq_str(c, "x") {
        CommandDecision::StopBridge
    } else if eq_str(c, "restart") || eq_str(c, "r") {
        CommandDecision::RestartBridge
    } else if eq_str(c, "sync") || eq_str(c, "y") {
        CommandDecision::SyncAll
    } else if eq_str(c, "l") || eq_str(c, "logs") {
        CommandDecision::Logs
    } else if eq_str(c, "home") || eq_str(c, "h") {
        CommandDecision::Home
    } else if eq_str(c, "setup") || eq_str(c, "config") {
        CommandDecision::Setup
    } else if eq_str(c, "scan") {
        CommandDecision::Scan
    } else if eq_str(c, "install") || eq_str(c, "uninstall") || eq_str(c, "update") {
        if should_run_attached(args.as_slice()) {
            CommandDecision::Attach(args)
        } else {
            CommandDecision::Capture(args)
        }
    } else {
        let mut m = String::from_str("error: unrecognized command '");
        push_str(&mut m, args[0].as_str());
        push_str(&mut m, "'");
        CommandDecision::Status(m)
    }
}


// ── Keys ─────────────────────────────────────────────────────────────────────

/// The dashboard's pages.
#[derive(Debug, Clone, Copy, PartialEq, Eq, Structural)]
pub enum Page {
    Home,
    Output,
    Help,
}

/// Navigating, or typing a `:command`.
#[derive(Debug, Clone, Copy, PartialEq, Eq, Structural)]
pub enum Mode {
    Normal,
    Command,
}

/// A key press, as far as the dashboard tells keys apart.
#[derive(Debug, Clone, Copy, PartialEq, Eq, Structural)]
pub enum Key {
    Char(char),
    Esc,
    Enter,
    Backspace,
    Tab,
    BackTab,
    Up,
    Down,
    PageUp,
    PageDown,
    Home,
    End,
    Other,
}

/// A bridge action a key asks for.
#[derive(Debug, Clone, Copy, PartialEq, Eq, Structural)]
pub enum BridgeAction {
    Start,
    Stop,
    Restart,
    Sync,
}

/// What the caller does after a key: nothing more, a bridge action (shown on
/// the output page), or a `:command` line.
#[derive(Debug, Clone, PartialEq, Eq)]
pub enum KeyEffect {
    Nothing,
    Action(BridgeAction),
    Command(String),
}

/// The dashboard's navigation state.
#[derive(Debug, Clone)]
pub struct DashState {
    pub page: Page,
    pub mode: Mode,
    pub log_scroll: usize,
    pub help_scroll: usize,
    /// The scroll of the command-output overlay, while it is open.
    pub overlay: Option<usize>,
    pub input: Vec<char>,
    pub quit: bool,
}

impl DashState {
    /// The state at launch: home page, navigating, nothing typed.
    pub fn new() -> (r: Self)
        ensures
            r.page == Page::Home,
            r.mode == Mode::Normal,
            r.log_scroll == 0 && r.help_scroll == 0,
            r.overlay is None,
            r.input@.len() == 0,
            !r.quit,
    {
        DashState {
            page: Page::Home,
            mode: Mode::Normal,
            log_scroll: 0,
            help_scroll: 0,
            overlay: None,
            input: Vec::new(),
            quit: false,
        }
    }

    /// Opens a page, resetting that page's scroll.
    pub fn goto(&mut self, page: Page)
        ensures
            final(self).page == page,
            final(self).log_scroll == if page == Page::Output {
                0
            } else {
                old(self).log_scroll
            },
            final(self).help_scroll == if page == Page::Help {
                0
            } else {
                old(self).help_scroll
            },
            final(self).mode == old(self).mode,
            final(self).overlay == old(self).overlay,
            final(self).input == old(self).input,
            final(self).quit == old(self).quit,
    {
        self.page = page;
        match page {
            Page::Output => self.log_scroll = 0,
            Page::Help => self.help_scroll = 0,
            Page::Home => {},
        }
    }
}

pub open spec fn sat_add(a: usize, b: usize) -> usize {
    if a + b > usize::MAX {
        usize::MAX
    } else {
        (a + b) as usize
    }
}

pub open spec fn sat_sub(a: usize, b: usize) -> usize {
    if a < b {
        0
    } else {
        (a - b) as usize
    }
}

/// The bridge action of a shortcut key, if it is one.
pub open spec fn shortcut(key: Key) -> Option<BridgeAction> {
    match key {
        Key::Char('s') => Some(BridgeAction::Start),
        Key::Char('x') => Some(BridgeAction::Stop),
        Key::Char('r') => Some(BridgeAction::Restart),
        Key::Char('y') => Some(BridgeAction::Sync),
        _ => None,
    }
}

fn shortcut_of(key: Key) -> (r: Option<BridgeAction>)
    ensures
        r == shortcut(key),
{
    match key {
        Key::Char('s') => Some(BridgeAction::Start),
        Key::Char('x') => Some(BridgeAction::Stop),
        Key::Char('r') => Some(BridgeAction::Restart),
        Key::Char('y') => Some(BridgeAction::Sync),
        _ => None,
    }
}

/// Handles one key press. In command mode keys edit the line (Enter hands
/// it over, trimmed, when not blank; Esc abandons it). Otherwise an open
/// output overlay takes the keys, then the current page: shortcuts run
/// bridge actions on the output page, `:` or any other character starts a
/// command, `?` opens help, and Esc goes back (or quits from home).
pub fn handle_key(st: &mut DashState, key: Key) -> (e: KeyEffect)
    ensures
        old(st).mode == Mode::Command ==> match key {
            Key::Esc => final(st).mode == Mode::Normal && final(st).input@.len() == 0 && e == KeyEffect::Nothing,
            Key::Enter => final(st).mode == Mode::Normal && final(st).input@.len() == 0 && match e {
                KeyEffect::Command(l) => l@ == crate::text::trim(old(st).input@) && l@.len() > 0,
                KeyEffect::Nothing => crate::text::trim(old(st).input@).len() == 0,
                _ => false,
            },
            Key::Backspace => final(st).input@ == (if old(st).input@.len() > 0 {
                old(st).input@.drop_last()
            } else {
                old(st).input@
            }) && e == KeyEffect::Nothing,
            Key::Char(c) => final(st).input@ == old(st).input@.push(c) && e == KeyEffect::Nothing,
            _ => e == KeyEffect::Nothing && final(st).input == old(st).input,
        },
        old(st).mode == Mode::Normal && old(st).overlay is Some ==> {
            &&& e == KeyEffect::Nothing
            &&& final(st).page == old(st).page
            &&& match key {
                Key::Esc | Key::Char('q') => final(st).overlay is None,
                Key::Up | Key::Char('k') => final(st).overlay == Some(sat_sub(old(st).overlay->0, 1)),
                Key::Down | Key::Char('j') => final(st).overlay == Some(sat_add(old(st).overlay->0, 1)),
                Key::PageUp => final(st).overlay == Some(sat_sub(old(st).overlay->0, 10)),
                Key::PageDown => final(st).overlay == Some(sat_add(old(st).overlay->0, 10)),
                _ => final(st).overlay == old(st).overlay,
            }
        },
        old(st).mode == Mode::Normal && old(st).overlay is None && old(st).page == Page::Home ==> match key {
            Key::Char('q') | Key::Esc => final(st).quit && e == KeyEffect::Nothing,
            Key::Char('?') => final(st).page == Page::Help && final(st).help_scroll == 0,
            Key::Tab | Key::BackTab => final(st).page == Page::Output && final(st).log_scroll == 0,
            Key::Char(':') => final(st).mode == Mode::Command && final(st).input@.len() == 0,
            Key::Char(c) => match shortcut(key) {
                Some(a) => e == KeyEffect::Action(a) && final(st).page == Page::Output,
                None => final(st).mode == Mode::Command && final(st).input@ == seq![c],
            },
            _ => e == KeyEffect::Nothing,
        },
        old(st).mode == Mode::Normal && old(st).overlay is None && old(st).page == Page::Output ==> match key {
            Key::Esc | Key::Tab | Key::BackTab => final(st).page == Page::Home && e == KeyEffect::Nothing,
            Key::Char('q') => final(st).quit,
            Key::Char('?') => final(st).page == Page::Help && final(st).help_scroll == 0,
            Key::Up | Key::Char('k') => final(st).log_scroll == sat_add(old(st).log_scroll, 1),
            Key::Down | Key::Char('j') => final(st).log_scroll == sat_sub(old(st).log_scroll, 1),
            Key::PageUp => final(st).log_scroll == sat_add(old(st).log_scroll, 10),
            Key::PageDown => final(st).log_scroll == sat_sub(old(st).log_scroll, 10),
            Key::Home => final(st).log_scroll == usize::MAX,
            Key::End => final(st).log_scroll == 0,
            _ => shortcut(key) matches Some(a) ==> e == KeyEffect::Action(a) && final(st).page == Page::Output,
        },
        old(st).mode == Mode::Normal && old(st).overlay is None && old(st).page == Page::Help ==> {
            &&& e == KeyEffect::Nothing
            &&& match key {
                Key::Char('?') | Key::Char('q') | Key::Esc => final(st).page == Page::Home,
                Key::Up | Key::Char('k') => final(st).help_scroll == sat_sub(old(st).help_scroll, 1),
                Key::Down | Key::Char('j') => final(st).help_scroll == sat_add(old(st).help_scroll, 1),
                Key::PageUp => final(st).help_scroll == sat_sub(old(st).help_scroll, 10),
                Key::PageDown => final(st).help_scroll == sat_add(old(st).help_scroll, 10),
                Key::Home => final(st).help_scroll == 0,
                Key::End => final(st).help_scroll == usize::MAX,
                _ => final(st).help_scroll == old(st).help_scroll && final(st).page == Page::Help,
            }
        },
{
    if st.mode == Mode::Command {
        match key {
            Key::Esc => {
                st.mode = Mode::Normal;
                st.input = Vec::new();
                KeyEffect::Nothing
            },
            Key::Enter => {
                let line = crate::text::trim_chars(st.input.as_slice());
                st.mode = Mode::Normal;
                st.input = Vec::new();
                if line.len() > 0 {
                    KeyEffect::Command(crate::text::string_of(line.as_slice()))
                } else {
                    KeyEffect::Nothing
                }
            },
            Key::Backspace => {
                st.input.pop();
                KeyEffect::Nothing
            },
            Key::Char(c) => {
                st.input.push(c);
                KeyEffect::Nothing
            },
            _ => KeyEffect::Nothing,
        }
    } else if st.overlay.is_some() {
        let v = match st.overlay {
            Some(v) => v,
            None => 0,
        };
        match key {
            Key::Esc | Key::Char('q') => st.overlay = None,
            Key::Up | Key::Char('k') => st.overlay = Some(v.saturating_sub(1)),
            Key::Down | Key::Char('j') => st.overlay = Some(v.saturating_add(1)),
            Key::PageUp => st.overlay = Some(v.saturating_sub(10)),
            Key::PageDown => st.overlay = Some(v.saturating_add(10)),
            _ => {},
        }
        KeyEffect::Nothing
    } else {
        match st.page {
            Page::Home => match key {
                Key::Char('q') | Key::Esc => {
                    st.quit = true;
                    KeyEffect::Nothing
                },
                Key::Char('?') => {
                    st.goto(Page::Help);
                    KeyEffect::Nothing
                },
                Key::Tab | Key::BackTab => {
                    st.goto(Page::Output);
                    KeyEffect::Nothing
                },
                Key::Char(':') => {
                    st.mode = Mode::Command;
                    st.input = Vec::new();
                    KeyEffect::Nothing
                },
                Key::Char(c) => match shortcut_of(key) {
                    Some(a) => {
                        st.goto(Page::Output);
                        KeyEffect::Action(a)
                    },
                    None => {
                        st.mode = Mode::Command;
                        let mut input: Vec<char> = Vec::new();
                        input.push(c);
                        st.input = input;
                        KeyEffect::Nothing
                    },
                },
                _ => KeyEffect::Nothing,
            },
            Page::Output => match key {
                Key::Esc | Key::Tab | Key::BackTab => {
                    st.goto(Page::Home);
                    KeyEffect::Nothing
                },
                Key::Char('q') => {
                    st.quit = true;
                    KeyEffect::Nothing
                },
                Key::Char('?') => {
                    st.goto(Page::Help);
                    KeyEffect::Nothing
                },
                Key::Up | Key::Char('k') => {
                    st.log_scroll = st.log_scroll.saturating_add(1);
                    KeyEffect::Nothing
                },
                Key::Down | Key::Char('j') => {
                    st.log_scroll = st.log_scroll.saturating_sub(1);
                    KeyEffect::Nothing
                },
                Key::PageUp => {
                    st.log_scroll = st.log_scroll.saturating_add(10);
                    KeyEffect::Nothing
                },
                Key::PageDown => {
                    st.log_scroll = st.log_scroll.saturating_sub(10);
                    KeyEffect::Nothing
                },
                Key::Home => {
                    st.log_scroll = usize::MAX;
                    KeyEffect::Nothing
                },
                Key::End => {
                    st.log_scroll = 0;
                    KeyEffect::Nothing
                },
                _ => match shortcut_of(key) {
                    Some(a) => {
                        st.goto(Page::Output);
                        KeyEffect::Action(a)
                    },
                    None => KeyEffect::Nothing,
                },
            },
            Page::Help => {
                match key {
                    Key::Char('?') | Key::Char('q') | Key::Esc => st.goto(Page::Home),
                    Key::Up | Key::Char('k') => st.help_scroll = st.help_scroll.saturating_sub(1),
                    Key::Down | Key::Char('j') => st.help_scroll = st.help_scroll.saturating_add(1),
                    Key::PageUp => st.help_scroll = st.help_scroll.saturating_sub(10),
                    Key::PageDown => st.help_scroll = st.help_scroll.saturating_add(10),
                    Key::Home => st.help_scroll = 0,
                    Key::End => st.help_scroll = usize::MAX,
                    _ => {},
                }
                KeyEffect::Nothing
            },
        }
    }
}

} // verus!
