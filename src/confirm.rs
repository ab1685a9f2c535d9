use vstd::prelude::*;

verus! {

/// Whether `c` has the Unicode White_Space property, the test `char::is_whitespace`
/// makes: U+0009 to U+000D, U+0020, U+0085, U+00A0, U+1680, U+2000 to U+200A,
/// U+2028, U+2029, U+202F, U+205F and U+3000.
pub open spec fn is_white_space(c: char) -> bool {
    let u = c as u32;
    ||| 0x09 <= u <= 0x0d
    ||| u == 0x20
    ||| u == 0x85
    ||| u == 0xa0
    ||| u == 0x1680
    ||| 0x2000 <= u <= 0x200a
    ||| u == 0x2028
    ||| u == 0x2029
    ||| u == 0x202f
    ||| u == 0x205f
    ||| u == 0x3000
}

/// `s` without its leading white space.
pub open spec fn trim_start(s: Seq<char>) -> Seq<char>
    decreases s.len(),
{
    if s.len() > 0 && is_white_space(s[0]) {
        trim_start(s.drop_first())
    } else {
        s
    }
}

/// `s` without its trailing white space.
pub open spec fn trim_end(s: Seq<char>) -> Seq<char>
    decreases s.len(),
{
    if s.len() > 0 && is_white_space(s.last()) {
        trim_end(s.drop_last())
    } else {
        s
    }
}

/// `s` without its leading and trailing white space.
pub open spec fn trimmed(s: Seq<char>) -> Seq<char> {
    trim_end(trim_start(s))
}

/// What str::to_lowercase makes of `s`: the Unicode lowercase mapping.
pub uninterp spec fn lowercase_of(s: Seq<char>) -> Seq<char>;

/// Whether `c` has the Unicode White_Space property (see `is_white_space`).
fn white_space(c: char) -> (r: bool)
    ensures
        r == is_white_space(c),
{
    let u = c as u32;
    (0x09 <= u && u <= 0x0d) || u == 0x20 || u == 0x85 || u == 0xa0 || u == 0x1680 || (0x2000
        <= u && u <= 0x200a) || u == 0x2028 || u == 0x2029 || u == 0x202f || u == 0x205f || u
        == 0x3000
}

/// Dropping leading white space from `s` leaves `s[i..]` when `s[..i]` is
/// all white space and `s[i]`, if any, is not.
proof fn lemma_trim_start_at(s: Seq<char>, i: int)
    requires
        0 <= i <= s.len(),
        forall|j: int| 0 <= j < i ==> is_white_space(#[trigger] s[j]),
        i == s.len() || !is_white_space(s[i]),
    ensures
        trim_start(s) == s.subrange(i, s.len() as int),
    decreases i,
{
    if i == 0 {
        assert(s.subrange(0, s.len() as int) =~= s);
    } else {
        let t = s.drop_first();
        assert forall|j: int| 0 <= j < i - 1 implies is_white_space(#[trigger] t[j]) by {
            assert(t[j] == s[j + 1]);
        }
        lemma_trim_start_at(t, i - 1);
        assert(t.subrange(i - 1, t.len() as int) =~= s.subrange(i, s.len() as int));
    }
}

/// Dropping trailing white space from `s` leaves `s[..k]` when `s[k..]` is
/// all white space and `s[k - 1]`, if any, is not.
proof fn lemma_trim_end_at(s: Seq<char>, k: int)
    requires
        0 <= k <= s.len(),
        forall|j: int| k <= j < s.len() ==> is_white_space(#[trigger] s[j]),
        k == 0 || !is_white_space(s[k - 1]),
    ensures
        trim_end(s) == s.subrange(0, k),
    decreases s.len() - k,
{
    if k == s.len() {
        assert(s.subrange(0, k) =~= s);
    } else {
        let t = s.drop_last();
        assert forall|j: int| k <= j < t.len() implies is_white_space(#[trigger] t[j]) by {
            assert(t[j] == s[j]);
        }
        assert(is_white_space(s[s.len() - 1]));
        lemma_trim_end_at(t, k);
        assert(t.subrange(0, k) =~= s.subrange(0, k));
    }
}

/// The slice of `s` without its leading and trailing white space, as
/// str::trim gives it.
fn trim_whitespace(s: &str) -> (r: &str)
    ensures
        r@ == trimmed(s@),
{
    let n = s.unicode_len();
    let mut i: usize = 0;
    while i < n && white_space(s.get_char(i))
        invariant
            n == s@.len(),
            i <= n,
            forall|j: int| 0 <= j < i ==> is_white_space(#[trigger] s@[j]),
        decreases n - i,
    {
        i = i + 1;
    }
    let mut k: usize = n;
    while k > i && white_space(s.get_char(k - 1))
        invariant
            n == s@.len(),
            i <= k <= n,
            forall|j: int| k <= j < n ==> is_white_space(#[trigger] s@[j]),
        decreases k - i,
    {
        k = k - 1;
    }
    proof {
        lemma_trim_start_at(s@, i as int);
        let t = s@.subrange(i as int, n as int);
        assert forall|j: int| k - i <= j < t.len() implies is_white_space(#[trigger] t[j]) by {
            assert(t[j] == s@[j + i]);
        }
        lemma_trim_end_at(t, k - i);
        assert(t.subrange(0, k - i) =~= s@.subrange(i as int, k as int));
    }
    s.substring_char(i, k)
}

/// Relies on str::to_lowercase: the lowercase equivalent of `s`.
#[verifier::external_body]
fn lowercase(s: &str) -> (r: String)
    ensures
        r@ == lowercase_of(s@),
{
    s.to_lowercase()
}

/// How one reply to a yes/no question reads.
#[derive(Clone, Copy, Debug, PartialEq, Eq, Structural)]
pub enum Answer {
    Yes,
    No,
    Unrecognized,
}

/// A normalised reply: "y" or "yes" agree, "n" or "no" decline, anything
/// else asks again.
pub open spec fn answer_of(s: Seq<char>) -> Answer {
    if s == seq!['y'] || s == seq!['y', 'e', 's'] {
        Answer::Yes
    } else if s == seq!['n'] || s == seq!['n', 'o'] {
        Answer::No
    } else {
        Answer::Unrecognized
    }
}

/// Whether `s` holds exactly the characters of `t`.
fn chars_equal(s: &str, t: &Vec<char>) -> (r: bool)
    ensures
        r == (s@ == t@),
{
    let n = s.unicode_len();
    if n != t.len() {
        return false;
    }
    let mut i: usize = 0;
    while i < n
        invariant
            n == s@.len(),
            n == t@.len(),
            i <= n,
            forall|j: int| 0 <= j < i ==> s@[j] == t@[j],
        decreases n - i,
    {
        if s.get_char(i) != t[i] {
            return false;
        }
        i = i + 1;
    }
    assert(s@ =~= t@);
    true
}

/// Reads an already normalised reply (see `answer_of`).
pub fn classify_answer(s: &str) -> (r: Answer)
    ensures
        r == answer_of(s@),
{
    let y = vec!['y'];
    let yes = vec!['y', 'e', 's'];
    let n = vec!['n'];
    let no = vec!['n', 'o'];
    assert(y@ =~= seq!['y']);
    assert(yes@ =~= seq!['y', 'e', 's']);
    assert(n@ =~= seq!['n']);
    assert(no@ =~= seq!['n', 'o']);
    if chars_equal(s, &y) || chars_equal(s, &yes) {
        Answer::Yes
    } else if chars_equal(s, &n) || chars_equal(s, &no) {
        Answer::No
    } else {
        Answer::Unrecognized
    }
}

/// Reads a raw reply line: trimmed, lowercased, then classified.
pub fn read_answer(line: &str) -> (r: Answer)
    ensures
        r == answer_of(lowercase_of(trimmed(line@))),
{
    let trimmed = trim_whitespace(line);
    let lowered = lowercase(trimmed);
    classify_answer(lowered.as_str())
}

/// Where an overwrite confirmation stands.
#[derive(Clone, Copy, Debug, PartialEq, Eq, Structural)]
pub enum ConfirmState {
    Prompting,
    Confirmed,
    Declined,
    IoFailure,
}

/// What the prompt's input stream delivered.
pub enum ConfirmEvent {
    Line(String),
    ReadFailed,
}

/// The state after `event`: a prompt moves on a recognised reply or a failed
/// read and asks again otherwise; the other states are final.
pub open spec fn next_state_of(state: ConfirmState, event: ConfirmEvent) -> ConfirmState {
    match state {
        ConfirmState::Prompting => match event {
            ConfirmEvent::ReadFailed => ConfirmState::IoFailure,
            ConfirmEvent::Line(s) => match answer_of(lowercase_of(trimmed(s@))) {
                Answer::Yes => ConfirmState::Confirmed,
                Answer::No => ConfirmState::Declined,
                Answer::Unrecognized => ConfirmState::Prompting,
            },
        },
        _ => state,
    }
}

/// One step of the confirmation dialogue.
pub fn next_state(state: ConfirmState, event: &ConfirmEvent) -> (r: ConfirmState)
    ensures
        r == next_state_of(state, *event),
{
    match state {
        ConfirmState::Prompting => match event {
            ConfirmEvent::ReadFailed => ConfirmState::IoFailure,
            ConfirmEvent::Line(s) => match read_answer(s.as_str()) {
                Answer::Yes => ConfirmState::Confirmed,
                Answer::No => ConfirmState::Declined,
                Answer::Unrecognized => ConfirmState::Prompting,
            },
        },
        _ => state,
    }
}

} // verus!
