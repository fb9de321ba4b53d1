use vstd::prelude::*;
use crate::bus::Joypad;
use crate::text::push_char;

verus! {

/// The gamepad buttons that the emulator maps, and any other.
#[derive(Debug, Clone, Copy, PartialEq, Eq, Structural)]
pub enum PadButton {
    South,
    East,
    Start,
    Select,
    DPadUp,
    DPadDown,
    DPadLeft,
    DPadRight,
    Other,
}

/// The buttons held on a connected gamepad.
#[derive(Debug, Clone, Copy, PartialEq, Eq, Structural)]
pub struct PadState {
    pub a: bool,
    pub b: bool,
    pub start: bool,
    pub select: bool,
    pub up: bool,
    pub down: bool,
    pub left: bool,
    pub right: bool,
}

impl Default for PadState {
    fn default() -> (p: Self)
        ensures
            p == (PadState { a: false, b: false, start: false, select: false, up: false, down: false, left: false, right: false }),
    {
        PadState { a: false, b: false, start: false, select: false, up: false, down: false, left: false, right: false }
    }
}

impl PadState {
    /// Records a press or release: South is A, East is B, the d-pad the
    /// directions; other buttons are ignored.
    pub fn set_button(&mut self, button: PadButton, pressed: bool)
        ensures
            *final(self) == match button {
                PadButton::South => PadState { a: pressed, ..*old(self) },
                PadButton::East => PadState { b: pressed, ..*old(self) },
                PadButton::Start => PadState { start: pressed, ..*old(self) },
                PadButton::Select => PadState { select: pressed, ..*old(self) },
                PadButton::DPadUp => PadState { up: pressed, ..*old(self) },
                PadButton::DPadDown => PadState { down: pressed, ..*old(self) },
                PadButton::DPadLeft => PadState { left: pressed, ..*old(self) },
                PadButton::DPadRight => PadState { right: pressed, ..*old(self) },
                PadButton::Other => *old(self),
            },
    {
        match button {
            PadButton::South => self.a = pressed,
            PadButton::East => self.b = pressed,
            PadButton::Start => self.start = pressed,
            PadButton::Select => self.select = pressed,
            PadButton::DPadUp => self.up = pressed,
            PadButton::DPadDown => self.down = pressed,
            PadButton::DPadLeft => self.left = pressed,
            PadButton::DPadRight => self.right = pressed,
            PadButton::Other => {},
        }
    }
}

/// The keyboard as the emulator reads it once per frame: keys held, and
/// F2 and F3 pressed since the last frame.
#[derive(Debug, Clone, Copy, PartialEq, Eq, Structural)]
pub struct Keys {
    pub w: bool,
    pub q: bool,
    pub enter: bool,
    pub e: bool,
    pub up: bool,
    pub down: bool,
    pub left: bool,
    pub right: bool,
    pub f5: bool,
    pub f9: bool,
    pub f2_pressed: bool,
    pub f3_pressed: bool,
}

/// The buttons held on keyboard or gamepad: W is A, Q is B, Enter is
/// Start, E is Select, the arrows are the d-pad.
pub open spec fn spec_joypad_from_input(keys: Keys, pad: PadState) -> Joypad {
    Joypad {
        a: keys.w || pad.a,
        b: keys.q || pad.b,
        start: keys.enter || pad.start,
        select: keys.e || pad.select,
        up: keys.up || pad.up,
        down: keys.down || pad.down,
        left: keys.left || pad.left,
        right: keys.right || pad.right,
    }
}

pub fn joypad_from_input(keys: &Keys, pad: &PadState) -> (j: Joypad)
    ensures
        j == spec_joypad_from_input(*keys, *pad),
{
    Joypad {
        a: keys.w || pad.a,
        b: keys.q || pad.b,
        start: keys.enter || pad.start,
        select: keys.e || pad.select,
        up: keys.up || pad.up,
        down: keys.down || pad.down,
        left: keys.left || pad.left,
        right: keys.right || pad.right,
    }
}

/// The speed factor after "faster": double, or 2 from normal speed.
pub open spec fn spec_turbo_faster(turbo: Option<u32>) -> Option<u32> {
    match turbo {
        Some(t) => Some((2 * t) as u32),
        None => Some(2),
    }
}

/// Whether "faster" can double the speed factor within `u32`.
pub open spec fn turbo_faster_ok(turbo: Option<u32>) -> bool {
    match turbo {
        Some(t) => 2 * t <= u32::MAX,
        None => true,
    }
}

/// The speed factor after "slower": halved, and normal speed once it
/// reaches 0.
pub open spec fn spec_turbo_slower(turbo: Option<u32>) -> Option<u32> {
    match turbo {
        Some(t) => if t / 2 != 0 { Some(t / 2) } else { None },
        None => None,
    }
}

pub fn turbo_faster(turbo: Option<u32>) -> (r: Option<u32>)
    requires
        turbo_faster_ok(turbo),
    ensures
        r == spec_turbo_faster(turbo),
{
    match turbo {
        Some(t) => Some(t * 2),
        None => Some(2),
    }
}

pub fn turbo_slower(turbo: Option<u32>) -> (r: Option<u32>)
    ensures
        r == spec_turbo_slower(turbo),
{
    match turbo {
        Some(t) => {
            let new_speed = t / 2;
            if new_speed != 0 { Some(new_speed) } else { None }
        },
        None => None,
    }
}

/// Halving a doubled speed factor gives it back.
pub proof fn lemma_turbo_round_trip(t: u32)
    requires
        t >= 1,
        turbo_faster_ok(Some(t)),
    ensures
        spec_turbo_slower(spec_turbo_faster(Some(t))) == Some(t),
{
}

/// Whether the run ends before the next step: the window was closed
/// (unless headless), or the requested number of frames has run.
pub open spec fn spec_should_stop(headless: bool, window_open: bool, frames: Option<u64>, frame_count: u64) -> bool {
    (!headless && !window_open) || (frames is Some && frame_count >= frames->0)
}

pub fn should_stop(headless: bool, window_open: bool, frames: Option<u64>, frame_count: u64) -> (stop: bool)
    ensures
        stop == spec_should_stop(headless, window_open, frames, frame_count),
{
    if !headless && !window_open {
        return true;
    }
    match frames {
        Some(max) => frame_count >= max,
        None => false,
    }
}

} // verus!

verus! {

/// Whether `c` is white space in Unicode's sense (as `char::is_whitespace`).
pub open spec fn is_space(c: char) -> bool {
    ||| c == '\t' || c == '\n' || c == '\u{0B}' || c == '\u{0C}' || c == '\r' || c == ' '
    ||| c == '\u{85}' || c == '\u{A0}' || c == '\u{1680}'
    ||| ('\u{2000}' <= c && c <= '\u{200A}')
    ||| c == '\u{2028}' || c == '\u{2029}' || c == '\u{202F}' || c == '\u{205F}' || c == '\u{3000}'
}

/// `s` without leading white space.
pub open spec fn trim_start(s: Seq<char>) -> Seq<char>
    decreases s.len(),
{
    if s.len() > 0 && is_space(s[0]) { trim_start(s.drop_first()) } else { s }
}

/// `s` without trailing white space.
pub open spec fn trim_end(s: Seq<char>) -> Seq<char>
    decreases s.len(),
{
    if s.len() > 0 && is_space(s.last()) { trim_end(s.drop_last()) } else { s }
}

/// `s` without white space at either end.
pub open spec fn trim(s: Seq<char>) -> Seq<char> {
    trim_end(trim_start(s))
}

/// The index of the first newline in `s`, or its length.
pub open spec fn first_newline(s: Seq<char>) -> int
    decreases s.len(),
{
    if s.len() == 0 || s[0] == '\n' { 0 } else { 1 + first_newline(s.drop_first()) }
}

/// The first newline is the first position holding '\n'.
pub proof fn lemma_first_newline(s: Seq<char>)
    ensures
        0 <= first_newline(s) <= s.len(),
        first_newline(s) < s.len() ==> s[first_newline(s)] == '\n',
        forall|j: int| 0 <= j < first_newline(s) ==> s[j] != '\n',
    decreases s.len(),
{
    if s.len() > 0 && s[0] != '\n' {
        lemma_first_newline(s.drop_first());
        assert forall|j: int| 0 <= j < first_newline(s) implies s[j] != '\n' by {
            if j > 0 {
                assert(s[j] == s.drop_first()[j - 1]);
            }
        }
    }
}

/// Whether a line of a script holds a frame: it is not blank and does not
/// start with '#'.
pub open spec fn holds_frame(line: Seq<char>) -> bool {
    trim(line).len() > 0 && !(line[0] == '#')
}

/// The buttons of a script line, in the order right, left, up, down, A,
/// B, select, start: the first eight characters after trimming, '1' for
/// pressed.
pub open spec fn frame_bits(line: Seq<char>) -> Seq<bool> {
    let t = trim(line);
    Seq::new(8, |k: int| k < t.len() && t[k] == '1')
}

/// The frames of a script: one per line (lines end at '\n', a '\r'
/// before it is dropped, and a last line needs no '\n') that holds one.
pub open spec fn script_frames(s: Seq<char>) -> Seq<Seq<bool>>
    decreases s.len(),
{
    if s.len() == 0 {
        Seq::empty()
    } else {
        let i = first_newline(s);
        let raw = s.take(i);
        let line = if i < s.len() && raw.len() > 0 && raw.last() == '\r' { raw.drop_last() } else { raw };
        let rest = if i < s.len() {
            proof { lemma_first_newline(s); }
            script_frames(s.skip(i + 1))
        } else {
            Seq::empty()
        };
        if holds_frame(line) { seq![frame_bits(line)] + rest } else { rest }
    }
}

/// The joypad state of a frame's buttons.
pub open spec fn joypad_of_bits(b: Seq<bool>) -> Joypad {
    Joypad {
        right: b[0],
        left: b[1],
        up: b[2],
        down: b[3],
        a: b[4],
        b: b[5],
        select: b[6],
        start: b[7],
    }
}

/// The characters of a recorded frame: '0' or '1' for right, left, up,
/// down, A, B, select, start.
pub open spec fn record_chars(j: Joypad) -> Seq<char> {
    let c = |b: bool| if b { '1' } else { '0' };
    seq![c(j.right), c(j.left), c(j.up), c(j.down), c(j.a), c(j.b), c(j.select), c(j.start)]
}

} // verus!

verus! {

proof fn lemma_trim_start(s: Seq<char>, k: int)
    requires
        0 <= k <= s.len(),
        forall|j: int| 0 <= j < k ==> is_space(#[trigger] s[j]),
        k == s.len() || !is_space(s[k]),
    ensures
        trim_start(s) == s.skip(k),
    decreases k,
{
    if k > 0 {
        assert forall|j: int| 0 <= j < k - 1 implies is_space(#[trigger] s.drop_first()[j]) by {
            assert(s.drop_first()[j] == s[j + 1]);
        }
        lemma_trim_start(s.drop_first(), k - 1);
        assert(s.drop_first().skip(k - 1) =~= s.skip(k));
    } else {
        assert(s.skip(0) =~= s);
    }
}

proof fn lemma_trim_end(s: Seq<char>, m: int)
    requires
        0 <= m <= s.len(),
        forall|j: int| m <= j < s.len() ==> is_space(#[trigger] s[j]),
        m == 0 || !is_space(s[m - 1]),
    ensures
        trim_end(s) == s.take(m),
    decreases s.len() - m,
{
    if m < s.len() {
        assert forall|j: int| m <= j < s.drop_last().len() implies is_space(#[trigger] s.drop_last()[j]) by {
            assert(s.drop_last()[j] == s[j]);
        }
        lemma_trim_end(s.drop_last(), m);
        assert(s.drop_last().take(m) =~= s.take(m));
    } else {
        assert(s.take(m) =~= s);
    }
}

proof fn lemma_first_newline_at(s: Seq<char>, k: int)
    requires
        0 <= k <= s.len(),
        k < s.len() ==> s[k] == '\n',
        forall|j: int| 0 <= j < k ==> s[j] != '\n',
    ensures
        first_newline(s) == k,
    decreases k,
{
    if k > 0 {
        assert forall|j: int| 0 <= j < k - 1 implies s.drop_first()[j] != '\n' by {
            assert(s.drop_first()[j] == s[j + 1]);
        }
        lemma_first_newline_at(s.drop_first(), k - 1);
    }
}

/// Whether `c` is white space (as `char::is_whitespace`).
pub fn char_is_space(c: char) -> (r: bool)
    ensures
        r == is_space(c),
{
    c == '\t' || c == '\n' || c == '\u{0B}' || c == '\u{0C}' || c == '\r' || c == ' '
        || c == '\u{85}' || c == '\u{A0}' || c == '\u{1680}'
        || ('\u{2000}' <= c && c <= '\u{200A}')
        || c == '\u{2028}' || c == '\u{2029}' || c == '\u{202F}' || c == '\u{205F}' || c == '\u{3000}'
}

/// The frame a script line holds, if it holds one.
fn line_frame(line: &Vec<char>) -> (r: Option<[bool; 8]>)
    ensures
        match r {
            Some(b) => holds_frame(line@) && b@ == frame_bits(line@),
            None => !holds_frame(line@),
        },
{
    let n = line.len();
    let mut start: usize = 0;
    while start < n && char_is_space(line[start])
        invariant
            n == line@.len(),
            start <= n,
            forall|j: int| 0 <= j < start ==> is_space(#[trigger] line@[j]),
        decreases n - start,
    {
        start += 1;
    }
    let mut end: usize = n;
    while end > start && char_is_space(line[end - 1])
        invariant
            n == line@.len(),
            start <= end <= n,
            forall|j: int| end <= j < n ==> is_space(#[trigger] line@[j]),
        decreases end,
    {
        end -= 1;
    }
    let ghost t0 = line@.skip(start as int);
    proof {
        lemma_trim_start(line@, start as int);
        assert forall|j: int| end - start <= j < t0.len() implies is_space(#[trigger] t0[j]) by {
            assert(t0[j] == line@[j + start]);
        }
        if end > start {
            assert(t0[end - start - 1] == line@[end - 1]);
        }
        lemma_trim_end(t0, end - start);
        assert(t0.take(end - start) =~= line@.subrange(start as int, end as int));
    }
    if end == start || line[0] == '#' {
        return None;
    }
    let mut bits = [false; 8];
    let mut k: usize = 0;
    while k < 8
        invariant
            n == line@.len(),
            start < end <= n,
            trim(line@) == line@.subrange(start as int, end as int),
            k <= 8,
            forall|m: int| 0 <= m < k ==> #[trigger] bits@[m] == frame_bits(line@)[m],
        decreases 8 - k,
    {
        let pressed = k < end - start && line[start + k] == '1';
        bits[k] = pressed;
        k += 1;
    }
    assert(bits@ =~= frame_bits(line@));
    Some(bits)
}

/// The buttons of each frame, as sequences.
pub open spec fn frames_view(frames: Seq<[bool; 8]>) -> Seq<Seq<bool>> {
    frames.map_values(|f: [bool; 8]| f@)
}

/// A scripted input: the buttons held on each frame.
pub struct InputScript {
    pub frames: Vec<[bool; 8]>,
}

impl InputScript {
    /// Reads a script: one frame per line that is not blank and does not
    /// start with '#'.
    pub fn parse(text: &Vec<char>) -> (s: InputScript)
        ensures
            frames_view(s.frames@) == script_frames(text@),
    {
        let mut frames: Vec<[bool; 8]> = Vec::new();
        let mut line: Vec<char> = Vec::new();
        let ghost mut pos: int = 0;
        let mut i: usize = 0;
        proof {
            assert(text@.skip(0) =~= text@);
            assert(frames_view(frames@) =~= Seq::<Seq<bool>>::empty());
            assert(frames_view(frames@) + script_frames(text@) =~= script_frames(text@));
        }
        while i < text.len()
            invariant
                i <= text@.len(),
                0 <= pos <= i,
                line@ == text@.subrange(pos, i as int),
                forall|j: int| pos <= j < i ==> text@[j] != '\n',
                frames_view(frames@) + script_frames(text@.skip(pos)) == script_frames(text@),
            decreases text@.len() - i,
        {
            let c = text[i];
            if c == '\n' {
                let ghost s = text@.skip(pos);
                let ghost raw = line@;
                proof {
                    assert forall|j: int| 0 <= j < i - pos implies s[j] != '\n' by {
                        assert(s[j] == text@[pos + j]);
                    }
                    lemma_first_newline_at(s, i - pos);
                    assert(s.take(i - pos) =~= raw);
                    assert(s.skip(i - pos + 1) =~= text@.skip(i + 1));
                }
                if line.len() > 0 && line[line.len() - 1] == '\r' {
                    line.pop();
                }
                let ghost before = frames@;
                match line_frame(&line) {
                    Some(b) => frames.push(b),
                    None => {},
                }
                proof {
                    assert(frames_view(frames@) =~= frames_view(before) + (if holds_frame(line@) { seq![frame_bits(line@)] } else { Seq::empty() }));
                    assert(script_frames(s) == (if holds_frame(line@) { seq![frame_bits(line@)] } else { Seq::<Seq<bool>>::empty() }) + script_frames(text@.skip(i + 1)));
                    assert(frames_view(frames@) + script_frames(text@.skip(i + 1)) =~= frames_view(before) + script_frames(s));
                    pos = i + 1;
                }
                line = Vec::new();
            } else {
                line.push(c);
            }
            i += 1;
            proof {
                assert(line@ =~= text@.subrange(pos, i as int));
            }
        }
        let ghost s = text@.skip(pos);
        proof {
            assert forall|j: int| 0 <= j < s.len() implies s[j] != '\n' by {
                assert(s[j] == text@[pos + j]);
            }
            lemma_first_newline_at(s, s.len() as int);
            assert(s.take(s.len() as int) =~= line@);
        }
        if line.len() > 0 {
            let ghost before = frames@;
            match line_frame(&line) {
                Some(b) => frames.push(b),
                None => {},
            }
            proof {
                assert(frames_view(frames@) =~= frames_view(before) + (if holds_frame(line@) { seq![frame_bits(line@)] } else { Seq::empty() }));
                assert(script_frames(text@) =~= frames_view(frames@));
            }
        } else {
            proof {
                assert(s.len() == 0);
                assert(script_frames(text@) =~= frames_view(frames@));
            }
        }
        InputScript { frames }
    }
}

/// The buttons of frame `frame` of a script; all released past its end.
pub open spec fn script_frame(frames: Seq<Seq<bool>>, frame: u64) -> Seq<bool> {
    if ((frame as usize) as int) < frames.len() {
        frames[(frame as usize) as int]
    } else {
        Seq::new(8, |k: int| false)
    }
}

impl InputScript {
    /// Sets the joypad to the buttons of frame `frame`.
    pub fn apply(&self, frame: u64, joypad: &mut Joypad)
        ensures
            *final(joypad) == joypad_of_bits(script_frame(frames_view(self.frames@), frame)),
    {
        let index = frame as usize;
        let state: [bool; 8] = if index < self.frames.len() { self.frames[index] } else { [false; 8] };
        proof {
            if index < self.frames.len() {
                assert(frames_view(self.frames@)[index as int] == self.frames@[index as int]@);
            } else {
                assert(state@ =~= Seq::new(8, |k: int| false));
            }
        }
        joypad.right = state[0];
        joypad.left = state[1];
        joypad.up = state[2];
        joypad.down = state[3];
        joypad.a = state[4];
        joypad.b = state[5];
        joypad.select = state[6];
        joypad.start = state[7];
    }
}

/// The line a recording writes for a frame's joypad state (without the
/// line break).
pub fn record_line(joypad: &Joypad) -> (line: String)
    ensures
        line@ == record_chars(*joypad),
{
    let mut line = String::new();
    push_char(&mut line, if joypad.right { '1' } else { '0' });
    push_char(&mut line, if joypad.left { '1' } else { '0' });
    push_char(&mut line, if joypad.up { '1' } else { '0' });
    push_char(&mut line, if joypad.down { '1' } else { '0' });
    push_char(&mut line, if joypad.a { '1' } else { '0' });
    push_char(&mut line, if joypad.b { '1' } else { '0' });
    push_char(&mut line, if joypad.select { '1' } else { '0' });
    push_char(&mut line, if joypad.start { '1' } else { '0' });
    assert(line@ =~= record_chars(*joypad));
    line
}

/// A recording of the given frames: one line per frame.
pub open spec fn recording(frames: Seq<Joypad>) -> Seq<char>
    decreases frames.len(),
{
    if frames.len() == 0 {
        Seq::empty()
    } else {
        record_chars(frames[0]).push('\n') + recording(frames.drop_first())
    }
}

/// A recorded line is its own trimmed form and holds its frame.
proof fn lemma_record_line(j: Joypad)
    ensures
        trim(record_chars(j)) == record_chars(j),
        holds_frame(record_chars(j)),
        joypad_of_bits(frame_bits(record_chars(j))) == j,
{
    let r = record_chars(j);
    lemma_trim_start(r, 0);
    assert(r.skip(0) =~= r);
    lemma_trim_end(r, 8);
    assert(r.take(8) =~= r);
}

/// Playing back a recording as an input script gives back the recorded
/// joypad state on every frame.
pub proof fn lemma_record_replay(frames: Seq<Joypad>)
    ensures
        script_frames(recording(frames)).len() == frames.len(),
        forall|n: int| 0 <= n < frames.len() ==> joypad_of_bits(#[trigger] script_frames(recording(frames))[n]) == frames[n],
    decreases frames.len(),
{
    if frames.len() > 0 {
        let rest = frames.drop_first();
        lemma_record_replay(rest);
        let line = record_chars(frames[0]);
        let s = recording(frames);
        lemma_record_line(frames[0]);
        assert(s == line.push('\n') + recording(rest));
        assert(s[8] == '\n');
        assert forall|j: int| 0 <= j < 8 implies s[j] != '\n' by {
            assert(s[j] == line[j]);
        }
        lemma_first_newline_at(s, 8);
        assert(s.take(8) =~= line);
        assert(s.skip(9) =~= recording(rest));
        assert(script_frames(s) == seq![frame_bits(line)] + script_frames(recording(rest)));
        assert forall|n: int| 0 <= n < frames.len() implies joypad_of_bits(#[trigger] script_frames(s)[n]) == frames[n] by {
            if n > 0 {
                assert(script_frames(s)[n] == script_frames(recording(rest))[n - 1]);
                assert(frames[n] == rest[n - 1]);
            }
        }
    }
}

/// What the host does at the end of a frame.
#[derive(Debug, Clone, Copy, PartialEq, Eq, Structural)]
pub struct FrameControl {
    /// The joypad state for the next frame.
    pub joypad: Joypad,
    /// Whether to save a state (F5).
    pub save_state: bool,
    /// Whether to load the saved state (F9).
    pub load_state: bool,
    /// The new speed factor (None: normal speed).
    pub turbo: Option<u32>,
}

/// The end-of-frame decisions: a script sets the joypad from its frame;
/// otherwise, with a window, the keyboard and gamepad set it, F5 saves,
/// F9 loads, F3 speeds up and F2 slows down.
pub open spec fn spec_frame_control(
    script: Option<Seq<Seq<bool>>>,
    frame: u64,
    headless: bool,
    keys: Keys,
    pad: PadState,
    joypad: Joypad,
    turbo: Option<u32>,
) -> FrameControl {
    match script {
        Some(frames) => FrameControl { joypad: joypad_of_bits(script_frame(frames, frame)), save_state: false, load_state: false, turbo },
        None => if headless {
            FrameControl { joypad, save_state: false, load_state: false, turbo }
        } else {
            let t1 = if keys.f3_pressed { spec_turbo_faster(turbo) } else { turbo };
            let t2 = if keys.f2_pressed { spec_turbo_slower(t1) } else { t1 };
            FrameControl { joypad: spec_joypad_from_input(keys, pad), save_state: keys.f5, load_state: keys.f9, turbo: t2 }
        },
    }
}

/// The script's frames, if there is a script.
pub open spec fn script_view(script: Option<&InputScript>) -> Option<Seq<Seq<bool>>> {
    match script {
        Some(s) => Some(frames_view(s.frames@)),
        None => None,
    }
}

pub fn frame_control(
    script: Option<&InputScript>,
    frame: u64,
    headless: bool,
    keys: &Keys,
    pad: &PadState,
    joypad: Joypad,
    turbo: Option<u32>,
) -> (c: FrameControl)
    requires
        script is None && !headless && keys.f3_pressed ==> turbo_faster_ok(turbo),
    ensures
        c == spec_frame_control(script_view(script), frame, headless, *keys, *pad, joypad, turbo),
{
    match script {
        Some(s) => {
            let mut j = joypad;
            s.apply(frame, &mut j);
            FrameControl { joypad: j, save_state: false, load_state: false, turbo }
        },
        None => {
            if headless {
                FrameControl { joypad, save_state: false, load_state: false, turbo }
            } else {
                let mut t = turbo;
                if keys.f3_pressed {
                    t = turbo_faster(t);
                }
                if keys.f2_pressed {
                    t = turbo_slower(t);
                }
                FrameControl { joypad: joypad_from_input(keys, pad), save_state: keys.f5, load_state: keys.f9, turbo: t }
            }
        },
    }
}

} // verus!
