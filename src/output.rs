use vstd::prelude::*;
use crate::confirm::ConfirmState;

verus! {

/// Where the image comes from and goes to: a file path each, or the
/// clipboard where a path is absent.
pub struct Args {
    pub input_path: Option<String>,
    pub output_path: Option<String>,
}

/// What stands at an output path before writing.
#[derive(Clone, Copy, Debug, PartialEq, Eq, Structural)]
pub enum PathKind {
    Missing,
    File,
    Directory,
    Symlink,
}

/// What to do before writing to an output path.
#[derive(Clone, Copy, Debug, PartialEq, Eq, Structural)]
pub enum SaveStep {
    /// The path is a directory or a symbolic link: it is never written.
    Refuse,
    /// A file is there: ask, and back it up before writing.
    ConfirmOverwrite,
    /// Nothing is there: write.
    Write,
}

/// Decides how an output path is treated.
pub fn save_step(kind: PathKind) -> (r: SaveStep)
    ensures
        r == (match kind {
            PathKind::Directory | PathKind::Symlink => SaveStep::Refuse,
            PathKind::File => SaveStep::ConfirmOverwrite,
            PathKind::Missing => SaveStep::Write,
        }),
{
    match kind {
        PathKind::Directory | PathKind::Symlink => SaveStep::Refuse,
        PathKind::File => SaveStep::ConfirmOverwrite,
        PathKind::Missing => SaveStep::Write,
    }
}

/// The ways a run can end early.
#[derive(Clone, Copy, Debug, PartialEq, Eq, Structural)]
pub enum Failure {
    ImageAccess,
    ImageDecode,
    ImageEncode,
    OutputPathInvalid,
    UserDeclinedOverwrite,
    PromptIo,
}

/// Process exit status for an early end: declining an overwrite is a
/// graceful stop (0), every other kind is fatal (1).
pub fn exit_status(f: Failure) -> (r: i32)
    ensures
        r == (if f == Failure::UserDeclinedOverwrite { 0i32 } else { 1i32 }),
{
    match f {
        Failure::UserDeclinedOverwrite => 0,
        _ => 1,
    }
}

/// What follows a finished confirmation: go on, or end early with the
/// failure it stands for (a declined overwrite ends gracefully).
pub fn confirm_outcome(state: ConfirmState) -> (r: Result<(), Failure>)
    requires
        state != ConfirmState::Prompting,
    ensures
        r == (match state {
            ConfirmState::Confirmed => Ok(()),
            ConfirmState::Declined => Err(Failure::UserDeclinedOverwrite),
            _ => Err(Failure::PromptIo),
        }),
{
    match state {
        ConfirmState::Confirmed => Ok(()),
        ConfirmState::Declined => Err(Failure::UserDeclinedOverwrite),
        _ => Err(Failure::PromptIo),
    }
}

/// The character of decimal digit `d`.
pub open spec fn digit_char(d: nat) -> char {
    if d == 0 {
        '0'
    } else if d == 1 {
        '1'
    } else if d == 2 {
        '2'
    } else if d == 3 {
        '3'
    } else if d == 4 {
        '4'
    } else if d == 5 {
        '5'
    } else if d == 6 {
        '6'
    } else if d == 7 {
        '7'
    } else if d == 8 {
        '8'
    } else {
        '9'
    }
}

/// The decimal notation of `n`, without leading zeros.
pub open spec fn decimal(n: nat) -> Seq<char>
    decreases n,
{
    if n < 10 {
        seq![digit_char(n)]
    } else {
        decimal(n / 10).push(digit_char(n % 10))
    }
}

fn digit_str(d: u128) -> (r: &'static str)
    requires
        d < 10,
    ensures
        r@ == seq![digit_char(d as nat)],
{
    proof {
        reveal_strlit("0");
        reveal_strlit("1");
        reveal_strlit("2");
        reveal_strlit("3");
        reveal_strlit("4");
        reveal_strlit("5");
        reveal_strlit("6");
        reveal_strlit("7");
        reveal_strlit("8");
        reveal_strlit("9");
    }
    let r = if d == 0 {
        "0"
    } else if d == 1 {
        "1"
    } else if d == 2 {
        "2"
    } else if d == 3 {
        "3"
    } else if d == 4 {
        "4"
    } else if d == 5 {
        "5"
    } else if d == 6 {
        "6"
    } else if d == 7 {
        "7"
    } else if d == 8 {
        "8"
    } else {
        "9"
    };
    assert(r@ =~= seq![digit_char(d as nat)]);
    r
}

/// The decimal notation of `m`.
pub fn to_decimal(m: u128) -> (r: String)
    ensures
        r@ == decimal(m as nat),
{
    let mut s = String::from_str(digit_str(m % 10));
    let mut n: u128 = m / 10;
    while n > 0
        invariant
            n > 0 ==> decimal(m as nat) == decimal(n as nat) + s@,
            n == 0 ==> decimal(m as nat) == s@,
        decreases n,
    {
        let d = digit_str(n % 10);
        let ghost old_s = s@;
        s = String::from_str(d).concat(s.as_str());
        proof {
            if n >= 10 {
                assert(decimal(n as nat) == decimal((n / 10) as nat).push(digit_char((n % 10) as nat)));
                assert(decimal(n as nat) + old_s =~= decimal((n / 10) as nat) + s@);
            } else {
                assert(decimal(n as nat) + old_s =~= s@);
            }
        }
        n = n / 10;
    }
    s
}

/// A hyphen and the time in milliseconds when the clock could be read,
/// nothing otherwise.
pub open spec fn get_timestamp_suffix_spec(millis: Option<u128>) -> Seq<char> {
    match millis {
        Some(m) => seq!['-'] + decimal(m as nat),
        None => Seq::<char>::empty(),
    }
}

/// The suffix of a backup name: a hyphen and the time in milliseconds when
/// the clock could be read, nothing otherwise.
pub fn get_timestamp_suffix(millis: Option<u128>) -> (r: String)
    ensures
        r@ == get_timestamp_suffix_spec(millis),
{
    match millis {
        Some(m) => {
            proof {
                reveal_strlit("-");
            }
            String::from_str("-").concat(to_decimal(m).as_str())
        },
        None => String::new(),
    }
}

/// The file name under which an overwritten file is kept: "BACKUP" and the
/// timestamp suffix.
pub fn backup_file_name(millis: Option<u128>) -> (r: String)
    ensures
        r@ == seq!['B', 'A', 'C', 'K', 'U', 'P'] + get_timestamp_suffix_spec(millis),
{
    proof {
        reveal_strlit("BACKUP");
    }
    let suffix = get_timestamp_suffix(millis);
    String::from_str("BACKUP").concat(suffix.as_str())
}

} // verus!
