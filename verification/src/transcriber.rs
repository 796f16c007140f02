use vstd::prelude::*;

use crate::capture::SAMPLE_RATE;
use crate::error::AsrError;

verus! {

/// The character of the decimal digit `d`.
pub open spec fn digit_char(d: nat) -> char {
    if d == 0 {
        '0'
    } else if d == 1 {
        '1'
    } else if d == 2 {
        '2'
    } else if d == 3 {
        '3'
    } else if d == 4 {
        '4'
    } else if d == 5 {
        '5'
    } else if d == 6 {
        '6'
    } else if d == 7 {
        '7'
    } else if d == 8 {
        '8'
    } else {
        '9'
    }
}

/// The decimal digits of `n`, most significant first, without leading zeros.
pub open spec fn digits(n: nat) -> Seq<char>
    decreases n,
{
    if n < 10 {
        seq![digit_char(n)]
    } else {
        digits(n / 10).push(digit_char(n % 10))
    }
}

/// `n` written in decimal, with a leading `-` when it is negative.
pub open spec fn decimal(n: int) -> Seq<char> {
    if n < 0 {
        seq!['-'] + digits((-n) as nat)
    } else {
        digits(n as nat)
    }
}

fn digit_str(d: u32) -> (s: &'static str)
    requires
        d < 10,
    ensures
        s@ == seq![digit_char(d as nat)],
{
    proof {
        reveal_strlit("0");
        reveal_strlit("1");
        reveal_strlit("2");
        reveal_strlit("3");
        reveal_strlit("4");
        reveal_strlit("5");
        reveal_strlit("6");
        reveal_strlit("7");
        reveal_strlit("8");
        reveal_strlit("9");
    }
    if d == 0 {
        "0"
    } else if d == 1 {
        "1"
    } else if d == 2 {
        "2"
    } else if d == 3 {
        "3"
    } else if d == 4 {
        "4"
    } else if d == 5 {
        "5"
    } else if d == 6 {
        "6"
    } else if d == 7 {
        "7"
    } else if d == 8 {
        "8"
    } else {
        "9"
    }
}

fn push_digits(s: &mut String, n: u32)
    ensures
        final(s)@ == old(s)@ + digits(n as nat),
    decreases n,
{
    if n >= 10 {
        push_digits(s, n / 10);
    }
    s.append(digit_str(n % 10));
}

/// Appends `n` in decimal to `s`.
pub fn push_decimal(s: &mut String, n: i32)
    ensures
        final(s)@ == old(s)@ + decimal(n as int),
{
    if n < 0 {
        proof {
            reveal_strlit("-");
        }
        s.append("-");
        let wide: i64 = n as i64;
        let magnitude: u32 = (-wide) as u32;
        push_digits(s, magnitude);
        assert(old(s)@ + seq!['-'] + digits(magnitude as nat) =~= old(s)@ + (seq!['-'] + digits(
            magnitude as nat,
        )));
    } else {
        push_digits(s, n as u32);
    }
}

/// Accepts audio only at the rate the recogniser requires; any other rate
/// is refused with the rate that was expected and the one that was given.
pub fn check_sample_rate(sample_rate: u32) -> (r: Result<(), AsrError>)
    ensures
        r is Ok <==> sample_rate == SAMPLE_RATE,
        r is Err ==> r == Err::<(), AsrError>(
            AsrError::InvalidSampleRate { expected: SAMPLE_RATE, got: sample_rate },
        ),
{
    if sample_rate != SAMPLE_RATE {
        return Err(AsrError::InvalidSampleRate { expected: SAMPLE_RATE, got: sample_rate });
    }
    Ok(())
}

/// Accepts the status code of a full transcription run: zero is success,
/// any other code is a failure that names it.
pub fn check_full_result(code: i32) -> (r: Result<(), AsrError>)
    ensures
        r is Ok <==> code == 0,
        r is Err ==> (r matches Err(AsrError::TranscriptionFailed(m)) && m@ == "whisper_full returned "@
            + decimal(code as int)),
{
    if code != 0 {
        let mut m = "whisper_full returned ".to_owned();
        push_decimal(&mut m, code);
        return Err(AsrError::TranscriptionFailed(m));
    }
    Ok(())
}

/// Appends the text of segment `index` to `text`. The segment is `None`
/// when the recogniser gave no text for it, and `Some(Err(reason))` when its
/// text is not valid UTF-8; either is an error, and `text` is left as it was.
pub fn append_segment(text: &mut String, index: i32, segment: Option<Result<String, String>>) -> (r:
    Result<(), AsrError>)
    ensures
        match segment {
            Some(Ok(s)) => r is Ok && final(text)@ == old(text)@ + s@,
            Some(Err(reason)) => final(text)@ == old(text)@ && (r matches Err(
                AsrError::SegmentExtraction(m),
            ) && m@ == "invalid UTF-8: "@ + reason@),
            None => final(text)@ == old(text)@ && (r matches Err(AsrError::SegmentExtraction(m))
                && m@ == "null pointer for segment "@ + decimal(index as int)),
        },
{
    match segment {
        None => {
            let mut m = "null pointer for segment ".to_owned();
            push_decimal(&mut m, index);
            Err(AsrError::SegmentExtraction(m))
        },
        Some(Err(reason)) => {
            let mut m = "invalid UTF-8: ".to_owned();
            m.append(reason.as_str());
            Err(AsrError::SegmentExtraction(m))
        },
        Some(Ok(s)) => {
            text.append(s.as_str());
            Ok(())
        },
    }
}

} // verus!
