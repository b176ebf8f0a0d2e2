//! What numbers in texts stand for.
use crate::probe::{OperationError, SampleError};
use crate::probe_text::{cleanup_intro, failures_text};
use crate::scratch::{CleanupFailure, ProbeCleanupError};
use crate::text::{digits, hex, hex_digits, signed_digits};
use crate::vsock::frame::{
    canonical, decimal, field_of, has_field, law_canonical_is_decimal, law_decimal_is_canonical,
    parse_line_spec, parse_u32_spec, value_of, word_connect, word_ok, word_reject, ControlError,
    Incoming,
};
use vstd::prelude::*;

verus! {

/// The number that a hexadecimal digit stands for.
pub open spec fn hex_value(digit: char) -> int {
    if '0' <= digit <= '9' {
        digit as int - '0' as int
    } else {
        digit as int - 'a' as int + 10
    }
}

/// A number in a text has the same decimal digits as on the control channel.
pub proof fn law_texts_and_frames_agree(n: nat)
    ensures
        digits(n).len() == decimal(n).len(),
        forall|i: int| 0 <= i < digits(n).len() ==> #[trigger] digits(n)[i] as int == decimal(n)[i],
    decreases n,
{
    if n >= 10 {
        law_texts_and_frames_agree(n / 10);
        let shorter = digits(n / 10);
        assert forall|i: int| 0 <= i < digits(n).len() implies #[trigger] digits(n)[i] as int
            == decimal(n)[i] by {
            if i < shorter.len() {
                assert(digits(n)[i] == shorter[i]);
                assert(decimal(n)[i] == decimal(n / 10)[i]);
            }
        }
    }
}

/// Each digit of a number in a text is one of the ten, and they stand for the number: the last
/// one for what is left over of tens, those before it for the tens.
pub proof fn law_digits_stand_for_the_number(n: nat)
    ensures
        digits(n).len() > 0,
        digits(n).last() as int - '0' as int == n % 10,
        n >= 10 ==> digits(n).drop_last() == digits(n / 10),
        n < 10 ==> digits(n).len() == 1,
        n > 0 ==> digits(n)[0] != '0',
        forall|i: int| 0 <= i < digits(n).len() ==> '0' <= #[trigger] digits(n)[i] <= '9',
    decreases n,
{
    if n >= 10 {
        law_digits_stand_for_the_number(n / 10);
        let shorter = digits(n / 10);
        assert(digits(n).drop_last() =~= shorter);
        assert(digits(n)[0] == shorter[0]);
        assert forall|i: int| 0 <= i < digits(n).len() implies '0' <= #[trigger] digits(n)[i]
            <= '9' by {
            if i < shorter.len() {
                assert(digits(n)[i] == shorter[i]);
            }
        }
    }
}

/// A negative number is marked by a sign in front of the digits of its amount; no other is.
pub proof fn law_only_negative_numbers_have_a_sign(n: int)
    ensures
        n >= 0 ==> signed_digits(n) == digits(n as nat) && '0' <= signed_digits(n)[0] <= '9',
        n < 0 ==> signed_digits(n)[0] == '-' && signed_digits(n).skip(1) == digits((0 - n) as nat),
{
    if n >= 0 {
        law_digits_stand_for_the_number(n as nat);
    } else {
        assert(signed_digits(n).skip(1) =~= digits((0 - n) as nat));
    }
}

/// Each hexadecimal digit is one of the sixteen, in small letters, and they stand for the number:
/// the last one for what is left over of sixteens, those before it for the sixteens.
pub proof fn law_hex_digits_stand_for_the_number(n: nat)
    ensures
        hex_digits(n).len() > 0,
        hex_value(hex_digits(n).last()) == n % 16,
        n >= 16 ==> hex_digits(n).drop_last() == hex_digits(n / 16),
        n < 16 ==> hex_digits(n).len() == 1,
        n > 0 ==> hex_digits(n)[0] != '0',
        forall|i: int|
            0 <= i < hex_digits(n).len() ==> '0' <= #[trigger] hex_digits(n)[i] <= '9' || 'a'
                <= hex_digits(n)[i] <= 'f',
    decreases n,
{
    if n >= 16 {
        law_hex_digits_stand_for_the_number(n / 16);
        let shorter = hex_digits(n / 16);
        assert(hex_digits(n).drop_last() =~= shorter);
        assert(hex_digits(n)[0] == shorter[0]);
        assert forall|i: int| 0 <= i < hex_digits(n).len() implies '0' <= #[trigger] hex_digits(
            n,
        )[i] <= '9' || 'a' <= hex_digits(n)[i] <= 'f' by {
            if i < shorter.len() {
                assert(hex_digits(n)[i] == shorter[i]);
            }
        }
    }
}

/// Hexadecimal numbers are marked by `0x`.
pub proof fn law_hex_numbers_are_marked(n: u64)
    ensures
        hex(n)[0] == '0',
        hex(n)[1] == 'x',
        hex(n).skip(2) == hex_digits(n as nat),
{
    assert(hex(n).skip(2) =~= hex_digits(n as nat));
}

/// A number is read from its own digits and from no other text. Numbers of more than 32 bits are
/// out of range; whatever is not the digits of a number is refused as such.
pub proof fn law_numbers_are_read_from_their_digits(n: nat, bytes: Seq<u8>)
    ensures
        n <= 0xffff_ffff ==> parse_u32_spec(decimal(n)) == Ok::<u32, ControlError>(n as u32),
        n > 0xffff_ffff ==> parse_u32_spec(decimal(n)) == Err::<u32, _>(ControlError::OutOfRange),
        parse_u32_spec(bytes) matches Ok(read) ==> bytes == decimal(read as nat),
        parse_u32_spec(bytes) == Err::<u32, _>(ControlError::OutOfRange) ==> bytes == decimal(
            value_of(bytes),
        ) && value_of(bytes) > 0xffff_ffff,
        bytes != decimal(value_of(bytes)) ==> parse_u32_spec(bytes) == Err::<u32, _>(
            ControlError::NotCanonical,
        ),
{
    law_decimal_is_canonical(n);
    if canonical(bytes) {
        law_canonical_is_decimal(bytes);
    }
}

/// A list of failures has each of them in it, in its own words and the host's for it: what stands
/// before it and behind it is given.
pub proof fn law_listed_failures_are_all_told(
    failures: Seq<CleanupFailure>,
    host_words: Seq<Seq<char>>,
    from: int,
    which: int,
) -> (around: (Seq<char>, Seq<char>))
    requires
        0 <= from <= which < failures.len(),
    ensures
        failures_text(failures, host_words, from) == around.0 + failures[which].text(
            host_words[which],
        ) + around.1,
        which + 1 == failures.len() <==> around.1.len() == 0,
    decreases failures.len() - from,
{
    let own = failures[which].text(host_words[which]);
    let told = failures_text(failures, host_words, from);
    if from == which {
        reveal_strlit(", ");
        let behind = if from + 1 == failures.len() {
            Seq::<char>::empty()
        } else {
            ", "@ + failures_text(failures, host_words, from + 1)
        };
        assert(told =~= Seq::<char>::empty() + own + behind);
        (Seq::empty(), behind)
    } else {
        let (before, behind) = law_listed_failures_are_all_told(
            failures,
            host_words,
            from + 1,
            which,
        );
        let front = failures[from].text(host_words[from]) + ", "@ + before;
        assert(told =~= front + own + behind);
        (front, behind)
    }
}

/// A failed cleanup is introduced as such, and each of its failures is told.
pub proof fn law_failed_cleanup_tells_everything(
    error: ProbeCleanupError,
    host_words: Seq<Seq<char>>,
    which: int,
) -> (around: (Seq<char>, Seq<char>))
    requires
        0 <= which < error.0@.len(),
    ensures
        error.text(host_words) == cleanup_intro() + around.0 + error.0@[which].text(
            host_words[which],
        ) + around.1,
{
    let failures = error.0@;
    let own = failures[which].text(host_words[which]);
    let told = error.text(host_words);
    let intro = cleanup_intro();
    if failures.len() > 1 && failures[0].of_vcpu() {
        let rest = "; "@ + intro + failures_text(failures, host_words, 1);
        if which == 0 {
            assert(told =~= intro + intro + own + rest);
            (intro, rest)
        } else {
            let (before, behind) = law_listed_failures_are_all_told(failures, host_words, 1, which);
            let front = intro + failures[0].text(host_words[0]) + "; "@ + intro + before;
            assert(told =~= intro + front + own + behind);
            (front, behind)
        }
    } else {
        let (before, behind) = law_listed_failures_are_all_told(failures, host_words, 0, which);
        assert(told =~= intro + before + own + behind);
        (before, behind)
    }
}

/// An error of the operating system is told in the host's words for it, at the end.
pub proof fn law_host_errors_are_told_in_its_words(error: OperationError, host_words: Seq<char>)
    requires
        error is HostMap || error is ReleaseAdvice || error is RestoreAdvice,
    ensures
        error.text(host_words).len() >= host_words.len(),
        error.text(host_words).skip(error.text(host_words).len() - host_words.len()) == host_words,
{
    let told = error.text(host_words);
    assert(told.skip(told.len() - host_words.len()) =~= host_words);
}

/// Why memory was not sampled is told with the number that the host gave, at the end.
pub proof fn law_sample_errors_tell_the_number(error: SampleError)
    ensures
        ({
            let number = match error {
                SampleError::Status(status) => signed_digits(status as int),
                SampleError::ShortCount(count) => digits(count as nat),
            };
            &&& error.text().len() >= number.len()
            &&& error.text().skip(error.text().len() - number.len()) == number
        }),
{
    let number = match error {
        SampleError::Status(status) => signed_digits(status as int),
        SampleError::ShortCount(count) => digits(count as nat),
    };
    assert(error.text().skip(error.text().len() - number.len()) =~= number);
}

/// A line with a word, a space, the digits of a number and its end.
pub open spec fn line_of(word: Seq<u8>, n: nat) -> Seq<u8> {
    word + seq![0x20u8] + decimal(n) + seq![0x0au8]
}

/// In the line of a word and a number the word has one field, and that is the number's digits.
proof fn lemma_line_of(word: Seq<u8>, n: nat)
    ensures
        has_field(line_of(word, n), word),
        field_of(line_of(word, n), word) == decimal(n),
        line_of(word, n).last() == 0x0a,
{
    let line = line_of(word, n);
    law_decimal_is_canonical(n);
    assert(line.take(word.len() as int) =~= word);
    assert(field_of(line, word) =~= decimal(n));
    assert forall|i: int| word.len() < i < line.len() - 1 implies #[trigger] line[i] != 0x20 by {
        assert(line[i] == decimal(n)[i - word.len() - 1]);
    }
}

/// Why a line is refused: one without an end is unterminated; a request to connect without a
/// descriptor misses it; a number of more than 32 bits is out of range; a grant with a descriptor,
/// and a line that starts with none of the three words, is no frame.
pub proof fn law_refused_lines_have_a_reason(line: Seq<u8>, fd: Option<i32>, n: nat)
    ensures
        line.len() == 0 || line.last() != 0x0a ==> parse_line_spec(line, fd) == Err::<Incoming, _>(
            ControlError::Unterminated,
        ),
        line == line_of(seq![0x43u8, 0x4f, 0x4e, 0x4e, 0x45, 0x43, 0x54], n) ==> parse_line_spec(
            line,
            fd,
        ) == match fd {
            Some(fd) => if n <= 0xffff_ffff {
                Ok(Incoming::Connect { port: n as u32, fd })
            } else {
                Err(ControlError::OutOfRange)
            },
            None => if n <= 0xffff_ffff {
                Err(ControlError::MissingFd)
            } else {
                Err(ControlError::OutOfRange)
            },
        },
        line == line_of(seq![0x4fu8, 0x4b], n) ==> parse_line_spec(line, fd) == if fd is Some {
            Err(ControlError::InvalidFrame)
        } else if n <= 0xffff_ffff {
            Ok(Incoming::Admit(n as u32))
        } else {
            Err(ControlError::OutOfRange)
        },
        line == line_of(seq![0x52u8, 0x45, 0x4a, 0x45, 0x43, 0x54], n) ==> parse_line_spec(line, fd)
            == if fd is Some {
            Err(ControlError::InvalidFrame)
        } else if n <= 0xffff_ffff {
            Ok(Incoming::Reject(n as u32))
        } else {
            Err(ControlError::OutOfRange)
        },
        line.len() > 0 && line.last() == 0x0a && line[0] != 0x43 && line[0] != 0x4f && line[0]
            != 0x52 ==> parse_line_spec(line, fd) == Err::<Incoming, _>(ControlError::InvalidFrame),
{
    lemma_line_of(word_connect(), n);
    lemma_line_of(word_ok(), n);
    lemma_line_of(word_reject(), n);
    law_numbers_are_read_from_their_digits(n, line);
    assert(word_connect() =~= seq![0x43u8, 0x4f, 0x4e, 0x4e, 0x45, 0x43, 0x54]);
    assert(word_ok() =~= seq![0x4fu8, 0x4b]);
    assert(word_reject() =~= seq![0x52u8, 0x45, 0x4a, 0x45, 0x43, 0x54]);
    if has_field(line, word_connect()) {
        assert(line.take(7)[0] == word_connect()[0]);
    }
    if has_field(line, word_ok()) {
        assert(line.take(2)[0] == word_ok()[0]);
    }
    if has_field(line, word_reject()) {
        assert(line.take(6)[0] == word_reject()[0]);
    }
}

} // verus!
