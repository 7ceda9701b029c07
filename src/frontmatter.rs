use vstd::prelude::*;
use vstd::string::{StrSliceExecFns, StringExecFns};

verus! {

/// The descriptive fields of a document's metadata block. Every field is
/// optional; an absent key is simply `None`.
#[derive(Debug, Clone, Default, PartialEq, Eq)]
pub struct Frontmatter {
    pub title: Option<String>,
    pub subtitle: Option<String>,
    pub date: Option<String>,
    pub version: Option<String>,
    pub customer: Option<String>,
    pub policy: Option<String>,
    pub document: Option<String>,
    pub author: Option<Vec<String>>,
    pub include_toc: Option<bool>,
    pub keywords: Option<Vec<String>>,
}

/// Why a metadata block could not be located.
#[derive(Debug, Clone, Copy, PartialEq, Eq, Structural)]
pub enum ScanError {
    /// A character other than blank space came before the opening marker.
    StartNotFound,
    /// A marker was cut short by a character other than `-`.
    MalformedMarker,
    /// A complete marker was followed by this character instead of a newline.
    ExpectedNewline(char),
    /// The input ended before the block was closed.
    UnexpectedEnd,
}

/// The states of the block scanner.
#[derive(Debug, Clone, Copy, PartialEq, Eq, Structural)]
pub enum ScanState {
    SearchForStart,
    ReadingMarker { count: usize, end: bool },
    ReadingFrontMatter { line_start: bool },
    SkipNewline { end: bool },
}

/// What the scanner does with one character.
#[derive(Debug, Clone, Copy, PartialEq, Eq, Structural)]
pub enum Step {
    Next(ScanState),
    Fail(ScanError),
    Finish,
}

pub open spec fn is_blank(c: char) -> bool {
    c == '\n' || c == '\t' || c == ' '
}

/// The transition table of the scanner.
pub open spec fn step(s: ScanState, c: char) -> Step {
    match s {
        ScanState::SearchForStart => {
            if c == '-' {
                Step::Next(ScanState::ReadingMarker { count: 1, end: false })
            } else if is_blank(c) {
                Step::Next(ScanState::SearchForStart)
            } else {
                Step::Fail(ScanError::StartNotFound)
            }
        },
        ScanState::ReadingMarker { count, end } => {
            if c == '-' {
                if count + 1 == 3 {
                    Step::Next(ScanState::SkipNewline { end })
                } else {
                    Step::Next(ScanState::ReadingMarker { count: (count + 1) as usize, end })
                }
            } else {
                Step::Fail(ScanError::MalformedMarker)
            }
        },
        ScanState::SkipNewline { end } => {
            if c == '\n' {
                if end {
                    Step::Finish
                } else {
                    Step::Next(ScanState::ReadingFrontMatter { line_start: true })
                }
            } else {
                Step::Fail(ScanError::ExpectedNewline(c))
            }
        },
        ScanState::ReadingFrontMatter { line_start } => {
            if c == '-' && line_start {
                Step::Next(ScanState::ReadingMarker { count: 1, end: true })
            } else {
                Step::Next(ScanState::ReadingFrontMatter { line_start: c == '\n' })
            }
        },
    }
}

/// Where the block's body begins, updated on reading the character `c` at `i`.
pub open spec fn next_start(s: ScanState, c: char, i: int, start: int) -> int {
    if s == (ScanState::SkipNewline { end: false }) && c == '\n' {
        i + 1
    } else {
        start
    }
}

/// Where the block's body ends, updated on reading the character `c` at `i`.
pub open spec fn next_stop(s: ScanState, c: char, i: int, stop: int) -> int {
    if s == (ScanState::ReadingFrontMatter { line_start: true }) && c == '-' {
        i
    } else {
        stop
    }
}

/// Runs the scanner from position `i` in state `s`. On success it gives the
/// body's bounds and the offset just past the closing marker's newline.
pub open spec fn scan(input: Seq<char>, i: int, s: ScanState, start: int, stop: int) -> Result<
    (int, int, int),
    ScanError,
>
    decreases input.len() - i,
{
    if i < 0 || i >= input.len() {
        Err(ScanError::UnexpectedEnd)
    } else {
        match step(s, input[i]) {
            Step::Fail(e) => Err(e),
            Step::Finish => Ok((start, stop, i + 1)),
            Step::Next(t) => scan(
                input,
                i + 1,
                t,
                next_start(s, input[i], i, start),
                next_stop(s, input[i], i, stop),
            ),
        }
    }
}

/// The metadata block's body and the offset of the content that follows it.
pub open spec fn extract_spec(input: Seq<char>) -> Result<(Seq<char>, int), ScanError> {
    match scan(input, 0, ScanState::SearchForStart, 0, 0) {
        Ok((a, b, o)) => Ok((input.subrange(a, b), o)),
        Err(e) => Err(e),
    }
}

/// A block in its written form: opening marker, body, closing marker.
pub open spec fn frame(body: Seq<char>) -> Seq<char> {
    "---\n"@ + body + "---\n"@
}

/// No line of `p` begins with `-`.
pub open spec fn no_dash_line(p: Seq<char>) -> bool {
    forall|k: int| 0 <= k < p.len() && #[trigger] p[k] == '-' ==> k > 0 && p[k - 1] != '\n'
}

/// A body that the scanner can return: no line starts with `-`, and it is
/// empty or ends with a newline.
pub open spec fn body_ok(p: Seq<char>) -> bool {
    no_dash_line(p) && (p.len() == 0 || p.last() == '\n')
}

spec fn state_ok(s: ScanState) -> bool {
    match s {
        ScanState::ReadingMarker { count, .. } => 1 <= count < 3,
        _ => true,
    }
}

spec fn bounds_ok(s: ScanState, i: int, start: int, stop: int) -> bool {
    match s {
        ScanState::ReadingFrontMatter { .. } => 0 <= start <= i,
        ScanState::ReadingMarker { end: true, .. } => 0 <= start <= stop < i,
        ScanState::SkipNewline { end: true } => 0 <= start <= stop < i,
        _ => true,
    }
}

fn next(s: ScanState, c: char) -> (r: Step)
    requires
        state_ok(s),
    ensures
        r == step(s, c),
        r matches Step::Next(t) ==> state_ok(t),
{
    match s {
        ScanState::SearchForStart => {
            if c == '-' {
                Step::Next(ScanState::ReadingMarker { count: 1, end: false })
            } else if c == '\n' || c == '\t' || c == ' ' {
                Step::Next(ScanState::SearchForStart)
            } else {
                Step::Fail(ScanError::StartNotFound)
            }
        },
        ScanState::ReadingMarker { count, end } => {
            if c == '-' {
                if count + 1 == 3 {
                    Step::Next(ScanState::SkipNewline { end })
                } else {
                    Step::Next(ScanState::ReadingMarker { count: count + 1, end })
                }
            } else {
                Step::Fail(ScanError::MalformedMarker)
            }
        },
        ScanState::SkipNewline { end } => {
            if c == '\n' {
                if end {
                    Step::Finish
                } else {
                    Step::Next(ScanState::ReadingFrontMatter { line_start: true })
                }
            } else {
                Step::Fail(ScanError::ExpectedNewline(c))
            }
        },
        ScanState::ReadingFrontMatter { line_start } => {
            if c == '-' && line_start {
                Step::Next(ScanState::ReadingMarker { count: 1, end: true })
            } else {
                Step::Next(ScanState::ReadingFrontMatter { line_start: c == '\n' })
            }
        },
    }
}

impl Frontmatter {
    /// Finds the metadata block at the head of `input`: blank space, a line of
    /// three `-`, the body, and another such line. Returns the body and the
    /// character offset just past the closing marker's newline.
    pub fn locate(input: &str) -> (r: Result<(String, usize), ScanError>)
        ensures
            match r {
                Ok((body, offset)) => extract_spec(input@) == Ok::<(Seq<char>, int), ScanError>(
                    (body@, offset as int),
                ),
                Err(e) => extract_spec(input@) == Err::<(Seq<char>, int), ScanError>(e),
            },
    {
        let n = input.unicode_len();
        let mut state = ScanState::SearchForStart;
        let mut start: usize = 0;
        let mut stop: usize = 0;
        let mut i: usize = 0;
        while i < n
            invariant
                n == input@.len(),
                i <= n,
                state_ok(state),
                bounds_ok(state, i as int, start as int, stop as int),
                scan(input@, 0, ScanState::SearchForStart, 0, 0) == scan(
                    input@,
                    i as int,
                    state,
                    start as int,
                    stop as int,
                ),
            decreases n - i,
        {
            let c = input.get_char(i);
            let new_start = if state == (ScanState::SkipNewline { end: false }) && c == '\n' {
                i + 1
            } else {
                start
            };
            let new_stop = if state == (ScanState::ReadingFrontMatter { line_start: true }) && c
                == '-' {
                i
            } else {
                stop
            };
            match next(state, c) {
                Step::Fail(e) => {
                    return Err(e);
                },
                Step::Finish => {
                    let body = input.substring_char(start, stop);
                    return Ok((body.to_owned(), i + 1));
                },
                Step::Next(t) => {
                    state = t;
                    start = new_start;
                    stop = new_stop;
                },
            }
            i = i + 1;
        }
        Err(ScanError::UnexpectedEnd)
    }

    /// Writes `body` as a metadata block.
    pub fn frame_block(body: &str) -> (r: String)
        ensures
            r@ == frame(body@),
    {
        let mut text = String::from_str("---\n");
        text.append(body);
        text.append("---\n");
        text
    }
}

proof fn lemma_skip_blanks(input: Seq<char>, k: int, j: int)
    requires
        0 <= k <= j < input.len(),
        forall|m: int| k <= m < j ==> is_blank(#[trigger] input[m]),
    ensures
        scan(input, k, ScanState::SearchForStart, 0, 0) == scan(
            input,
            j,
            ScanState::SearchForStart,
            0,
            0,
        ),
    decreases j - k,
{
    if k < j {
        lemma_skip_blanks(input, k + 1, j);
    }
}

/// When the first character that is not blank space is anything but `-`,
/// there is no opening marker and extraction fails with `StartNotFound`.
pub proof fn lemma_missing_opening_marker(input: Seq<char>, j: int)
    requires
        0 <= j < input.len(),
        forall|m: int| 0 <= m < j ==> is_blank(#[trigger] input[m]),
        !is_blank(input[j]),
        input[j] != '-',
    ensures
        extract_spec(input) == Err::<(Seq<char>, int), ScanError>(ScanError::StartNotFound),
{
    lemma_skip_blanks(input, 0, j);
}

spec fn body_inv(input: Seq<char>, i: int, s: ScanState, start: int, stop: int) -> bool {
    match s {
        ScanState::ReadingFrontMatter { line_start } => 0 <= start <= i <= input.len()
            && no_dash_line(input.subrange(start, i)) && line_start == (i == start || input[i
            - 1] == '\n'),
        ScanState::ReadingMarker { end: true, .. } => 0 <= start <= stop < i <= input.len()
            && body_ok(input.subrange(start, stop)),
        ScanState::SkipNewline { end: true } => 0 <= start <= stop < i <= input.len() && body_ok(
            input.subrange(start, stop),
        ),
        _ => true,
    }
}

proof fn lemma_scan_body_ok(input: Seq<char>, i: int, s: ScanState, start: int, stop: int)
    requires
        0 <= i,
        body_inv(input, i, s, start, stop),
    ensures
        match scan(input, i, s, start, stop) {
            Ok((a, b, _)) => 0 <= a <= b <= input.len() && body_ok(input.subrange(a, b)),
            Err(_) => true,
        },
    decreases input.len() - i,
{
    if i < input.len() {
        let c = input[i];
        match step(s, c) {
            Step::Next(t) => {
                let ns = next_start(s, c, i, start);
                let nt = next_stop(s, c, i, stop);
                match s {
                    ScanState::ReadingFrontMatter { line_start } => {
                        if !(c == '-' && line_start) {
                            let old_body = input.subrange(start, i);
                            let new_body = input.subrange(start, i + 1);
                            assert(new_body =~= old_body.push(c));
                            assert forall|k: int|
                                0 <= k < new_body.len() && #[trigger] new_body[k] == '-' implies k
                                > 0 && new_body[k - 1] != '\n' by {
                                if k < old_body.len() {
                                    assert(new_body[k] == old_body[k]);
                                }
                            }
                        }
                    },
                    _ => {},
                }
                assert(body_inv(input, i + 1, t, ns, nt));
                lemma_scan_body_ok(input, i + 1, t, ns, nt);
            },
            _ => {},
        }
    }
}

proof fn lemma_scan_frame_body(x: Seq<char>, p: Seq<char>, k: int)
    requires
        x.len() >= 4 + p.len(),
        forall|m: int| 0 <= m < p.len() ==> x[4 + m] == #[trigger] p[m],
        no_dash_line(p),
        0 <= k <= p.len(),
    ensures
        scan(x, 4 + k, ScanState::ReadingFrontMatter { line_start: k == 0 || p[k - 1] == '\n' }, 4, 0)
            == scan(
            x,
            4 + p.len() as int,
            ScanState::ReadingFrontMatter { line_start: p.len() == 0 || p[p.len() - 1] == '\n' },
            4,
            0,
        ),
    decreases p.len() - k,
{
    if k < p.len() {
        assert(x[4 + k] == p[k]);
        lemma_scan_frame_body(x, p, k + 1);
    }
}

/// A body that the scanner can return, framed by markers and followed by any
/// content, is extracted unchanged, with the offset just past the block.
pub proof fn lemma_frame_extract(p: Seq<char>, rest: Seq<char>)
    requires
        body_ok(p),
    ensures
        extract_spec(frame(p) + rest) == Ok::<(Seq<char>, int), ScanError>((p, p.len() as int + 8)),
{
    reveal_strlit("---\n");
    let x = frame(p) + rest;
    let n = p.len() as int;
    assert(x[0] == '-' && x[1] == '-' && x[2] == '-' && x[3] == '\n');
    assert forall|m: int| 0 <= m < p.len() implies x[4 + m] == #[trigger] p[m] by {}
    assert(x[4 + n] == '-' && x[5 + n] == '-' && x[6 + n] == '-' && x[7 + n] == '\n');
    let body = ScanState::ReadingFrontMatter { line_start: true };
    let closing = ScanState::ReadingMarker { count: 1, end: true };
    assert(scan(x, 4 + n, body, 4, 0) == scan(x, 5 + n, closing, 4, 4 + n));
    assert(scan(x, 5 + n, closing, 4, 4 + n) == scan(
        x,
        6 + n,
        ScanState::ReadingMarker { count: 2, end: true },
        4,
        4 + n,
    ));
    assert(scan(x, 6 + n, ScanState::ReadingMarker { count: 2, end: true }, 4, 4 + n) == scan(
        x,
        7 + n,
        ScanState::SkipNewline { end: true },
        4,
        4 + n,
    ));
    assert(scan(x, 7 + n, ScanState::SkipNewline { end: true }, 4, 4 + n) == Ok::<
        (int, int, int),
        ScanError,
    >((4, 4 + n, 8 + n)));
    lemma_scan_frame_body(x, p, 0);
    assert(scan(x, 3, ScanState::SkipNewline { end: false }, 0, 0) == scan(x, 4, body, 4, 0));
    assert(scan(x, 2, ScanState::ReadingMarker { count: 2, end: false }, 0, 0) == scan(
        x,
        3,
        ScanState::SkipNewline { end: false },
        0,
        0,
    ));
    assert(scan(x, 1, ScanState::ReadingMarker { count: 1, end: false }, 0, 0) == scan(
        x,
        2,
        ScanState::ReadingMarker { count: 2, end: false },
        0,
        0,
    ));
    assert(x.subrange(4, 4 + n) =~= p);
}

/// Extracting a block, writing its body back as a block and extracting
/// again gives the same body, with the offset at the end of the new block.
pub proof fn lemma_reextract_round_trip(input: Seq<char>)
    ensures
        match extract_spec(input) {
            Ok((p, _)) => extract_spec(frame(p)) == Ok::<(Seq<char>, int), ScanError>(
                (p, frame(p).len() as int),
            ),
            Err(_) => true,
        },
{
    lemma_scan_body_ok(input, 0, ScanState::SearchForStart, 0, 0);
    match extract_spec(input) {
        Ok((p, _)) => {
            reveal_strlit("---\n");
            lemma_frame_extract(p, Seq::empty());
            assert(frame(p) + Seq::<char>::empty() =~= frame(p));
        },
        Err(_) => {},
    }
}

} // verus!
