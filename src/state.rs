use crate::color::{color_of, Color};
use crate::error::{Error, ErrorKind};
use crate::text::{chars_of, find, find_in, number_of, parse_number, substring, trim, trim_bounds};
use vstd::prelude::*;
use vstd::string::*;

verus! {

/// Which progress bar is drawn.
#[derive(Clone, Copy, Debug, PartialEq, Eq, Structural)]
pub enum Progress {
    /// A full-width bar whose alpha pulses over time.
    Indeterminate,
    /// A bar filled in proportion `progress_current / progress_max`.
    Determinate,
    /// No bar.
    Hidden,
}

/// One update of the display state, as read from a line of input.
#[derive(Debug)]
pub enum UpdateMsg {
    Text(String),
    Font(String),
    Color(Color),
    Progress(Progress),
    IndeterminateSpeed(u32),
    ProgressCurrent(u64),
    ProgressMax(u64),
}

/// An update with its strings seen as character sequences.
pub enum MsgView {
    Text(Seq<char>),
    Font(Seq<char>),
    Color(Color),
    Progress(Progress),
    IndeterminateSpeed(u32),
    ProgressCurrent(u64),
    ProgressMax(u64),
}

impl View for UpdateMsg {
    type V = MsgView;

    open spec fn view(&self) -> MsgView {
        match self {
            UpdateMsg::Text(s) => MsgView::Text(s@),
            UpdateMsg::Font(s) => MsgView::Font(s@),
            UpdateMsg::Color(c) => MsgView::Color(*c),
            UpdateMsg::Progress(p) => MsgView::Progress(*p),
            UpdateMsg::IndeterminateSpeed(n) => MsgView::IndeterminateSpeed(*n),
            UpdateMsg::ProgressCurrent(n) => MsgView::ProgressCurrent(*n),
            UpdateMsg::ProgressMax(n) => MsgView::ProgressMax(*n),
        }
    }
}

/// What the overlay shows.
#[derive(Debug)]
pub struct State {
    pub text: String,
    pub font: String,
    pub color: Color,
    pub right_aligned: bool,
    pub progress: Progress,
    pub indeterminate_speed: u32,
    pub progress_current: u64,
    pub progress_max: u64,
}

/// The display state with its strings seen as character sequences.
pub struct StateView {
    pub text: Seq<char>,
    pub font: Seq<char>,
    pub color: Color,
    pub right_aligned: bool,
    pub progress: Progress,
    pub indeterminate_speed: u32,
    pub progress_current: u64,
    pub progress_max: u64,
}

impl View for State {
    type V = StateView;

    open spec fn view(&self) -> StateView {
        StateView {
            text: self.text@,
            font: self.font@,
            color: self.color,
            right_aligned: self.right_aligned,
            progress: self.progress,
            indeterminate_speed: self.indeterminate_speed,
            progress_current: self.progress_current,
            progress_max: self.progress_max,
        }
    }
}

pub type ErrorView = (ErrorKind, Seq<char>);

/// The progress mode that `s` names, spelt exactly.
pub open spec fn progress_of(s: Seq<char>) -> Option<Progress> {
    if s == "indeterminate"@ {
        Some(Progress::Indeterminate)
    } else if s == "determinate"@ {
        Some(Progress::Determinate)
    } else if s == "none"@ {
        Some(Progress::Hidden)
    } else {
        None
    }
}

/// The update that `value` gives to the attribute `key`; `value` is not empty.
pub open spec fn attribute_of(key: Seq<char>, value: Seq<char>) -> Result<MsgView, ErrorView> {
    if key == "font"@ {
        Ok(MsgView::Font(value))
    } else if key == "color"@ {
        match color_of(value) {
            Ok(c) => Ok(MsgView::Color(c)),
            Err(e) => Err(e),
        }
    } else if key == "progress"@ {
        match progress_of(value) {
            Some(p) => Ok(MsgView::Progress(p)),
            None => Err((ErrorKind::InvalidProgressMode, value)),
        }
    } else if key == "indeterminate_speed"@ {
        match number_of(value, u32::MAX as nat) {
            Some(n) => Ok(MsgView::IndeterminateSpeed(n as u32)),
            None => Err((ErrorKind::InvalidNumber, value)),
        }
    } else if key == "progress_current"@ {
        match number_of(value, u64::MAX as nat) {
            Some(n) => Ok(MsgView::ProgressCurrent(n as u64)),
            None => Err((ErrorKind::InvalidNumber, value)),
        }
    } else if key == "progress_max"@ {
        match number_of(value, u64::MAX as nat) {
            Some(n) => Ok(MsgView::ProgressMax(n as u64)),
            None => Err((ErrorKind::InvalidNumber, value)),
        }
    } else {
        Err((ErrorKind::UnknownAttribute, key))
    }
}

/// `key` names one of the attributes that a line can set.
pub open spec fn is_attribute(key: Seq<char>) -> bool {
    key == "font"@ || key == "color"@ || key == "progress"@ || key == "indeterminate_speed"@
        || key == "progress_current"@ || key == "progress_max"@
}

/// What one line of input means. A line that starts with `\` is
/// `\key=value`, both sides trimmed: without `=` it is a missing value; a key
/// that names no attribute is an unknown attribute; an empty color is a
/// missing value, and an empty value of another key goes to that key's rule
/// (an empty font, an invalid mode, an invalid number). Any other line is the
/// new text, as it stands.
pub open spec fn msg_of(line: Seq<char>) -> Result<MsgView, ErrorView> {
    if line.len() > 0 && line[0] == '\\' {
        let rest = line.drop_first();
        let i = find(rest, '=');
        let key = trim(rest.take(i as int));
        if i >= rest.len() {
            Err((ErrorKind::MissingValue, key))
        } else {
            let value = trim(rest.subrange(i + 1 as int, rest.len() as int));
            if !is_attribute(key) {
                Err((ErrorKind::UnknownAttribute, key))
            } else if value.len() == 0 && key == "color"@ {
                Err((ErrorKind::MissingValue, key))
            } else {
                attribute_of(key, value)
            }
        }
    } else {
        Ok(MsgView::Text(line))
    }
}

pub open spec fn msg_result_view(r: Result<UpdateMsg, Error>) -> Result<MsgView, ErrorView> {
    match r {
        Ok(m) => Ok(m@),
        Err(e) => Err(e@),
    }
}

/// The state after an update: the one field that the update names takes its value.
pub open spec fn apply(st: StateView, m: MsgView) -> StateView {
    match m {
        MsgView::Text(s) => StateView { text: s, ..st },
        MsgView::Font(s) => StateView { font: s, ..st },
        MsgView::Color(c) => StateView { color: c, ..st },
        MsgView::Progress(p) => StateView { progress: p, ..st },
        MsgView::IndeterminateSpeed(n) => StateView { indeterminate_speed: n, ..st },
        MsgView::ProgressCurrent(n) => StateView { progress_current: n, ..st },
        MsgView::ProgressMax(n) => StateView { progress_max: n, ..st },
    }
}

/// The state before any update.
pub open spec fn default_view() -> StateView {
    StateView {
        text: Seq::empty(),
        font: "Sans 12"@,
        color: Color(255, 255, 255, 255),
        right_aligned: true,
        progress: Progress::Indeterminate,
        indeterminate_speed: 1,
        progress_current: 0,
        progress_max: 100,
    }
}

/// `v[a..b]` spells `lit`.
fn spells(v: &Vec<char>, a: usize, b: usize, lit: &str) -> (r: bool)
    requires
        a <= b <= v@.len(),
    ensures
        r == (v@.subrange(a as int, b as int) == lit@),
{
    let n = lit.unicode_len();
    if b - a != n {
        assert(v@.subrange(a as int, b as int).len() != lit@.len());
        return false;
    }
    let mut i: usize = 0;
    while i < n
        invariant
            n == lit@.len(),
            b - a == n,
            a <= b <= v@.len(),
            i <= n,
            forall|j: int| 0 <= j < i ==> v@[a + j] == lit@[j],
        decreases n - i,
    {
        if v[a + i] != lit.get_char(i) {
            assert(v@.subrange(a as int, b as int)[i as int] != lit@[i as int]);
            return false;
        }
        i = i + 1;
    }
    assert(v@.subrange(a as int, b as int) =~= lit@);
    true
}

impl Progress {
    /// Reads a progress mode, spelt exactly as `indeterminate`, `determinate` or `none`.
    pub fn parse(s: &str) -> (r: Result<Progress, Error>)
        ensures
            match progress_of(s@) {
                Some(p) => r == Ok::<Progress, Error>(p),
                None => r is Err && r->Err_0@ == (ErrorKind::InvalidProgressMode, s@),
            },
    {
        let v = chars_of(s);
        let n = v.len();
        assert(v@.subrange(0, n as int) =~= s@);
        if spells(&v, 0, n, "indeterminate") {
            Ok(Progress::Indeterminate)
        } else if spells(&v, 0, n, "determinate") {
            Ok(Progress::Determinate)
        } else if spells(&v, 0, n, "none") {
            Ok(Progress::Hidden)
        } else {
            Err(Error::new(ErrorKind::InvalidProgressMode, s.to_owned()))
        }
    }
}

impl UpdateMsg {
    /// Reads one line of input: `\key=value` sets an attribute, any other
    /// line is the new text.
    pub fn parse(line: &str) -> (r: Result<UpdateMsg, Error>)
        ensures
            msg_result_view(r) == msg_of(line@),
    {
        let v = chars_of(line);
        let n = v.len();
        if n == 0 || v[0] != '\\' {
            return Ok(UpdateMsg::Text(line.to_owned()));
        }
        let ghost rest = line@.drop_first();
        assert(rest =~= v@.subrange(1, n as int));
        let i = find_in(&v, 1, n, '=');
        let (ka, kb) = trim_bounds(&v, 1, i);
        assert(rest.take(i - 1) =~= v@.subrange(1, i as int));
        let key = substring(line, ka, kb);
        if i >= n {
            return Err(Error::new(ErrorKind::MissingValue, key));
        }
        let (va, vb) = trim_bounds(&v, i + 1, n);
        assert(rest.subrange(i - 1 + 1, rest.len() as int) =~= v@.subrange(i + 1, n as int));
        let known = spells(&v, ka, kb, "font") || spells(&v, ka, kb, "color") || spells(
            &v,
            ka,
            kb,
            "progress",
        ) || spells(&v, ka, kb, "indeterminate_speed") || spells(&v, ka, kb, "progress_current")
            || spells(&v, ka, kb, "progress_max");
        if !known {
            return Err(Error::new(ErrorKind::UnknownAttribute, key));
        }
        if va == vb && spells(&v, ka, kb, "color") {
            return Err(Error::new(ErrorKind::MissingValue, key));
        }
        let value = substring(line, va, vb);
        if spells(&v, ka, kb, "font") {
            Ok(UpdateMsg::Font(value))
        } else if spells(&v, ka, kb, "color") {
            match Color::parse(value.as_str()) {
                Ok(c) => Ok(UpdateMsg::Color(c)),
                Err(e) => Err(e),
            }
        } else if spells(&v, ka, kb, "progress") {
            match Progress::parse(value.as_str()) {
                Ok(p) => Ok(UpdateMsg::Progress(p)),
                Err(e) => Err(e),
            }
        } else if spells(&v, ka, kb, "indeterminate_speed") {
            match parse_number(&v, va, vb, u32::MAX as u64) {
                Some(x) => Ok(UpdateMsg::IndeterminateSpeed(x as u32)),
                None => Err(Error::new(ErrorKind::InvalidNumber, value)),
            }
        } else if spells(&v, ka, kb, "progress_current") {
            match parse_number(&v, va, vb, u64::MAX) {
                Some(x) => Ok(UpdateMsg::ProgressCurrent(x)),
                None => Err(Error::new(ErrorKind::InvalidNumber, value)),
            }
        } else if spells(&v, ka, kb, "progress_max") {
            match parse_number(&v, va, vb, u64::MAX) {
                Some(x) => Ok(UpdateMsg::ProgressMax(x)),
                None => Err(Error::new(ErrorKind::InvalidNumber, value)),
            }
        } else {
            Err(Error::new(ErrorKind::UnknownAttribute, key))
        }
    }
}

/// `line` without one trailing carriage return.
pub open spec fn strip_cr(line: Seq<char>) -> Seq<char> {
    if line.len() > 0 && line.last() == '\r' {
        line.drop_last()
    } else {
        line
    }
}

/// The state after applying, in order, each line of `s` (lines end at `\n`,
/// a trailing `\r` is dropped, and a final `\n` opens no empty line), or
/// the error of the first line that does not parse.
pub open spec fn replay_text(st: StateView, s: Seq<char>) -> Result<StateView, ErrorView>
    decreases s.len(),
{
    if s.len() == 0 {
        Ok(st)
    } else {
        let i = find(s, '\n');
        match msg_of(strip_cr(s.take(i as int))) {
            Err(e) => Err(e),
            Ok(m) => if i < s.len() {
                replay_text(apply(st, m), s.subrange(i + 1 as int, s.len() as int))
            } else {
                Ok(apply(st, m))
            },
        }
    }
}

pub open spec fn state_result_view(r: Result<State, Error>) -> Result<StateView, ErrorView> {
    match r {
        Ok(st) => Ok(st@),
        Err(e) => Err(e@),
    }
}

/// The state after applying the updates of `log` in order.
pub open spec fn replay(st: StateView, log: Seq<MsgView>) -> StateView
    decreases log.len(),
{
    if log.len() == 0 {
        st
    } else {
        apply(replay(st, log.drop_last()), log.last())
    }
}

impl State {
    /// The state before any update: no text, font `Sans 12`, opaque white,
    /// right-aligned, an indeterminate bar at speed 1, progress 0 of 100.
    pub fn new() -> (r: State)
        ensures
            r@ == default_view(),
    {
        let font = String::from_str("Sans 12");
        proof {
            reveal_strlit("Sans 12");
        }
        State {
            text: String::new(),
            font,
            color: Color(255, 255, 255, 255),
            right_aligned: true,
            progress: Progress::Indeterminate,
            indeterminate_speed: 1,
            progress_current: 0,
            progress_max: 100,
        }
    }

    /// Applies one update: the field that it names takes its value, and
    /// no other field changes.
    pub fn update(&mut self, msg: UpdateMsg)
        ensures
            final(self)@ == apply(old(self)@, msg@),
    {
        match msg {
            UpdateMsg::Text(s) => self.text = s,
            UpdateMsg::Font(s) => self.font = s,
            UpdateMsg::Color(c) => self.color = c,
            UpdateMsg::Progress(p) => self.progress = p,
            UpdateMsg::IndeterminateSpeed(u) => self.indeterminate_speed = u,
            UpdateMsg::ProgressCurrent(u) => self.progress_current = u,
            UpdateMsg::ProgressMax(u) => self.progress_max = u,
        }
    }

    /// Parses one line and applies it; on an error the state is left as it was.
    pub fn apply_line(&mut self, line: &str) -> (r: Result<(), Error>)
        ensures
            match msg_of(line@) {
                Ok(m) => r is Ok && final(self)@ == apply(old(self)@, m),
                Err(e) => r is Err && r->Err_0@ == e && final(self)@ == old(self)@,
            },
    {
        match UpdateMsg::parse(line) {
            Ok(m) => {
                self.update(m);
                Ok(())
            },
            Err(e) => Err(e),
        }
    }

    /// The text to show is not empty yet.
    pub fn has_text(&self) -> (r: bool)
        ensures
            r == (self.text@.len() > 0),
    {
        !self.text.as_str().is_empty()
    }

    /// The default state with every line of `contents` applied in order;
    /// the first line that does not parse is the error.
    pub fn from_bootstrap(contents: &str) -> (r: Result<State, Error>)
        ensures
            state_result_view(r) == replay_text(default_view(), contents@),
    {
        let v = chars_of(contents);
        let n = v.len();
        let mut st = State::new();
        let mut pos: usize = 0;
        assert(v@.subrange(0, n as int) =~= contents@);
        while pos < n
            invariant
                pos <= n == v@.len(),
                v@ == contents@,
                replay_text(default_view(), contents@) == replay_text(
                    st@,
                    v@.subrange(pos as int, n as int),
                ),
            decreases n - pos,
        {
            let ghost s = v@.subrange(pos as int, n as int);
            let i = find_in(&v, pos, n, '\n');
            let end: usize = if i > pos && v[i - 1] == '\r' {
                i - 1
            } else {
                i
            };
            assert(strip_cr(s.take(i - pos)) =~= v@.subrange(pos as int, end as int));
            let line = substring(contents, pos, end);
            match st.apply_line(line.as_str()) {
                Ok(()) => {},
                Err(e) => {
                    return Err(e);
                },
            }
            if i < n {
                assert(s.subrange(i - pos + 1, s.len() as int) =~= v@.subrange(
                    i + 1,
                    n as int,
                ));
                pos = i + 1;
            } else {
                assert(v@.subrange(n as int, n as int).len() == 0);
                pos = n;
            }
        }
        Ok(st)
    }

    /// A copy of the state, field for field.
    pub fn snapshot(&self) -> (r: State)
        ensures
            r@ == self@,
    {
        State {
            text: self.text.clone(),
            font: self.font.clone(),
            color: self.color,
            right_aligned: self.right_aligned,
            progress: self.progress,
            indeterminate_speed: self.indeterminate_speed,
            progress_current: self.progress_current,
            progress_max: self.progress_max,
        }
    }
}

/// The display state as shared between the one writer that applies updates
/// and the renderer that copies it out. It records, as ghost data, the state
/// it began with and every update applied since, and its state is always the
/// replay of exactly those whole updates.
pub struct Shared {
    state: State,
    start: Ghost<StateView>,
    log: Ghost<Seq<MsgView>>,
}

impl Shared {
    /// The state it began with.
    pub closed spec fn start(&self) -> StateView {
        self.start@
    }

    /// The updates applied since, in order.
    pub closed spec fn log(&self) -> Seq<MsgView> {
        self.log@
    }

    pub closed spec fn current(&self) -> StateView {
        self.state@
    }

    pub closed spec fn wf(&self) -> bool {
        self.state@ == replay(self.start@, self.log@)
    }

    pub fn new(state: State) -> (r: Shared)
        ensures
            r.wf(),
            r.start() == state@,
            r.log() == Seq::<MsgView>::empty(),
            r.current() == state@,
    {
        let ghost start = state@;
        Shared { state, start: Ghost(start), log: Ghost(Seq::empty()) }
    }

    /// Applies one whole update.
    pub fn update(&mut self, msg: UpdateMsg)
        requires
            old(self).wf(),
        ensures
            final(self).wf(),
            final(self).start() == old(self).start(),
            final(self).log() == old(self).log().push(msg@),
            final(self).current() == apply(old(self).current(), msg@),
    {
        let ghost m = msg@;
        self.state.update(msg);
        self.log = Ghost(self.log@.push(m));
        assert(self.log@.drop_last() =~= old(self).log@);
    }

    /// Parses one line and applies it as one whole update; on an error nothing changes.
    pub fn apply_line(&mut self, line: &str) -> (r: Result<(), Error>)
        requires
            old(self).wf(),
        ensures
            final(self).wf(),
            final(self).start() == old(self).start(),
            match msg_of(line@) {
                Ok(m) => r is Ok && final(self).log() == old(self).log().push(m),
                Err(e) => r is Err && r->Err_0@ == e && final(self).log() == old(self).log(),
            },
    {
        match UpdateMsg::parse(line) {
            Ok(m) => {
                self.update(m);
                Ok(())
            },
            Err(e) => Err(e),
        }
    }

    /// A copy of the state: the replay of every update applied so far, each
    /// of them whole.
    pub fn snapshot(&self) -> (r: State)
        requires
            self.wf(),
        ensures
            r@ == replay(self.start(), self.log()),
            r@ == self.current(),
    {
        self.state.snapshot()
    }
}

/// A snapshot that follows `k` whole updates and one that follows `k + 1`
/// differ by exactly the update `log[k]`: in the field that it names, and
/// in no other. No state between the two can be seen.
pub proof fn lemma_snapshots_step_by_whole_updates(start: StateView, log: Seq<MsgView>, k: int)
    requires
        0 <= k < log.len(),
    ensures
        replay(start, log.take(k + 1)) == apply(replay(start, log.take(k)), log[k]),
{
    assert(log.take(k + 1).drop_last() =~= log.take(k));
}

impl std::str::FromStr for Progress {
    type Err = Error;

    fn from_str(s: &str) -> (r: Result<Progress, Error>)
        ensures
            match progress_of(s@) {
                Some(p) => r == Ok::<Progress, Error>(p),
                None => r is Err && r->Err_0@ == (ErrorKind::InvalidProgressMode, s@),
            },
    {
        Progress::parse(s)
    }
}

impl std::str::FromStr for UpdateMsg {
    type Err = Error;

    fn from_str(s: &str) -> (r: Result<UpdateMsg, Error>)
        ensures
            msg_result_view(r) == msg_of(s@),
    {
        UpdateMsg::parse(s)
    }
}

} // verus!
