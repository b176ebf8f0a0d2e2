//! The lines by which the two ends of a control channel speak to each other.
use vstd::prelude::*;

verus! {

pub const SPACE: u8 = 0x20;

pub const NEWLINE: u8 = 0x0a;

pub const ZERO: u8 = 0x30;

pub const NINE: u8 = 0x39;

/// What the other end of a control channel says.
#[derive(Clone, Copy, Debug, PartialEq, Eq, Structural)]
pub enum Incoming {
    /// A socket to be connected to a port of the guest.
    Connect { port: u32, fd: i32 },
    /// A request of the guest is granted.
    Admit(u32),
    /// A request of the guest is refused.
    Reject(u32),
}

/// Why a control channel failed.
#[derive(Clone, Copy, Debug, PartialEq, Eq, Structural)]
pub enum ControlError {
    Fenced,
    ChannelClosed,
    EndOfFile,
    ReceiveFailed(i32),
    SendFailed(i32),
    NoProgress,
    AncillaryMisplaced,
    FrameInvalidByte,
    AncillaryTruncated,
    ProtectedEndpoint,
    DescriptorRejected(i32),
    NotCanonical,
    OutOfRange,
    Unterminated,
    MissingFd,
    InvalidFrame,
}

/// A number as decimal digits, without zeros in front.
pub open spec fn decimal(n: nat) -> Seq<u8>
    decreases n,
{
    if n < 10 {
        seq![(ZERO + n) as u8]
    } else {
        decimal(n / 10).push((ZERO + n % 10) as u8)
    }
}

/// The byte is a decimal digit.
pub open spec fn is_digit(byte: u8) -> bool {
    ZERO <= byte <= NINE
}

/// The digits of a number, without zeros in front.
pub open spec fn canonical(bytes: Seq<u8>) -> bool {
    &&& bytes.len() > 0
    &&& bytes.len() > 1 ==> bytes[0] != ZERO
    &&& forall|i: int| 0 <= i < bytes.len() ==> is_digit(#[trigger] bytes[i])
}

/// The number that digits stand for.
pub open spec fn value_of(bytes: Seq<u8>) -> nat
    decreases bytes.len(),
{
    if bytes.len() == 0 {
        0
    } else {
        value_of(bytes.drop_last()) * 10 + (bytes.last() - ZERO) as nat
    }
}

/// A number's digits are canonical and stand for the number.
pub proof fn law_decimal_is_canonical(n: nat)
    ensures
        canonical(decimal(n)),
        value_of(decimal(n)) == n,
        n > 0 ==> decimal(n)[0] != ZERO,
    decreases n,
{
    if n < 10 {
        assert(decimal(n).drop_last() =~= Seq::<u8>::empty());
        assert(value_of(decimal(n).drop_last()) == 0);
        assert(decimal(n).last() == ZERO + n);
    } else {
        law_decimal_is_canonical(n / 10);
        assert(decimal(n).drop_last() =~= decimal(n / 10));
        assert(decimal(n).last() == ZERO + n % 10);
    }
}

/// Canonical digits are those of the number that they stand for, so no two texts stand for
/// the same number.
pub proof fn law_canonical_is_decimal(bytes: Seq<u8>)
    requires
        canonical(bytes),
    ensures
        decimal(value_of(bytes)) == bytes,
        bytes[0] != ZERO ==> value_of(bytes) > 0,
    decreases bytes.len(),
{
    if bytes.len() == 1 {
        assert(bytes.drop_last() =~= Seq::<u8>::empty());
        assert(value_of(bytes.drop_last()) == 0);
        assert(bytes.last() == bytes[0] && is_digit(bytes[0]));
        assert(value_of(bytes) == (bytes[0] - ZERO) as nat);
        assert(decimal(value_of(bytes)) =~= bytes);
    } else {
        let front = bytes.drop_last();
        assert(canonical(front));
        law_canonical_is_decimal(front);
        let n = value_of(bytes);
        assert(front[0] == bytes[0]);
        assert(value_of(front) > 0);
        assert(n / 10 == value_of(front));
        assert(n % 10 == (bytes.last() - ZERO) as nat);
        assert(decimal(n) =~= bytes);
    }
}

/// The number that a text stands for.
pub open spec fn parse_u32_spec(bytes: Seq<u8>) -> Result<u32, ControlError> {
    if !canonical(bytes) {
        Err(ControlError::NotCanonical)
    } else if value_of(bytes) > u32::MAX {
        Err(ControlError::OutOfRange)
    } else {
        Ok(value_of(bytes) as u32)
    }
}

/// The number that the bytes from `from` up to `to` stand for. Only the digits of a number
/// without zeros in front are taken.
pub fn parse_u32(bytes: &Vec<u8>, from: usize, to: usize) -> (result: Result<u32, ControlError>)
    requires
        from <= to <= bytes@.len(),
    ensures
        result == parse_u32_spec(bytes@.subrange(from as int, to as int)),
{
    let ghost text = bytes@.subrange(from as int, to as int);
    if from == to || (to - from > 1 && bytes[from] == ZERO) {
        return Err(ControlError::NotCanonical);
    }
    let mut at: usize = from;
    let mut value: u64 = 0;
    let mut large = false;
    while at < to
        invariant
            from <= at <= to <= bytes@.len(),
            text == bytes@.subrange(from as int, to as int),
            forall|i: int| 0 <= i < at - from ==> is_digit(#[trigger] text[i]),
            value <= u32::MAX,
            !large ==> value == value_of(text.take(at - from)),
            large ==> value_of(text.take(at - from)) > u32::MAX,
        decreases to - at,
    {
        let byte: u8 = bytes[at];
        assert(text[at - from] == byte);
        assert(text.take(at + 1 - from).drop_last() =~= text.take(at - from));
        if byte < ZERO || byte > NINE {
            return Err(ControlError::NotCanonical);
        }
        if !large {
            let next: u64 = value * 10 + (byte - ZERO) as u64;
            if next > u32::MAX as u64 {
                large = true;
            } else {
                value = next;
            }
        }
        at += 1;
    }
    assert(text.take(to - from) =~= text);
    assert(canonical(text)) by {
        assert(text[0] == bytes[from as int]);
    }
    if large {
        Err(ControlError::OutOfRange)
    } else {
        Ok(value as u32)
    }
}

/// Appends the digits of a number.
fn push_decimal(bytes: &mut Vec<u8>, number: u32)
    ensures
        final(bytes)@ == old(bytes)@ + decimal(number as nat),
    decreases number,
{
    if number >= 10 {
        push_decimal(bytes, number / 10);
    }
    bytes.push(ZERO + (number % 10) as u8);
    assert(bytes@ =~= old(bytes)@ + decimal(number as nat));
}

/// A number has few digits.
proof fn lemma_decimal_length(n: nat)
    requires
        n <= u32::MAX,
    ensures
        1 <= decimal(n).len() <= 10,
{
    reveal_with_fuel(decimal, 11);
}

/// The word of a frame that asks for a connection.
pub open spec fn word_connect() -> Seq<u8> {
    seq![0x43u8, 0x4f, 0x4e, 0x4e, 0x45, 0x43, 0x54]
}

/// The word of a frame that grants a request.
pub open spec fn word_ok() -> Seq<u8> {
    seq![0x4fu8, 0x4b]
}

/// The word of a frame that refuses a request.
pub open spec fn word_reject() -> Seq<u8> {
    seq![0x52u8, 0x45, 0x4a, 0x45, 0x43, 0x54]
}

/// The frame that asks the host for a connection.
pub open spec fn connect_frame_spec(request_id: u32, host_port: u32, guest_port: u32) -> Seq<u8> {
    word_connect().push(SPACE) + decimal(request_id as nat) + seq![SPACE] + decimal(
        host_port as nat,
    ) + seq![SPACE] + decimal(guest_port as nat) + seq![NEWLINE]
}

/// The frame that asks the host for a connection. It is short.
pub fn connect_frame(request_id: u32, host_port: u32, guest_port: u32) -> (bytes: Vec<u8>)
    ensures
        bytes@ == connect_frame_spec(request_id, host_port, guest_port),
        14 <= bytes@.len() <= 41,
{
    let mut bytes: Vec<u8> = vec![0x43, 0x4f, 0x4e, 0x4e, 0x45, 0x43, 0x54, SPACE];
    assert(bytes@ =~= word_connect().push(SPACE));
    push_decimal(&mut bytes, request_id);
    bytes.push(SPACE);
    push_decimal(&mut bytes, host_port);
    bytes.push(SPACE);
    push_decimal(&mut bytes, guest_port);
    bytes.push(NEWLINE);
    proof {
        lemma_decimal_length(request_id as nat);
        lemma_decimal_length(host_port as nat);
        lemma_decimal_length(guest_port as nat);
        assert(bytes@ =~= connect_frame_spec(request_id, host_port, guest_port));
    }
    bytes
}

/// The line that tells a host which port its connection has: the word, a space, the number.
pub open spec fn ok_line_spec(port: u32) -> Seq<u8> {
    word_ok().push(SPACE) + decimal(port as nat) + seq![NEWLINE]
}

/// The line that tells a host which port its connection has.
pub fn ok_line(port: u32) -> (bytes: Vec<u8>)
    ensures
        bytes@ == ok_line_spec(port),
        5 <= bytes@.len() <= 14,
{
    let mut bytes: Vec<u8> = vec![0x4f, 0x4b, SPACE];
    assert(bytes@ =~= word_ok().push(SPACE));
    push_decimal(&mut bytes, port);
    bytes.push(NEWLINE);
    proof {
        lemma_decimal_length(port as nat);
        assert(bytes@ =~= ok_line_spec(port));
    }
    bytes
}

/// The line is the word, a space and one more field, without its end of line.
pub open spec fn has_field(line: Seq<u8>, word: Seq<u8>) -> bool {
    &&& line.len() >= word.len() + 2
    &&& line.take(word.len() as int) == word
    &&& line[word.len() as int] == SPACE
    &&& forall|i: int| word.len() < i < line.len() - 1 ==> #[trigger] line[i] != SPACE
}

/// What follows the word of such a line.
pub open spec fn field_of(line: Seq<u8>, word: Seq<u8>) -> Seq<u8> {
    line.subrange(word.len() as int + 1, line.len() - 1)
}

/// What a line says. `fd` is the descriptor that came with it.
pub open spec fn parse_line_spec(line: Seq<u8>, fd: Option<i32>) -> Result<
    Incoming,
    ControlError,
> {
    if line.len() == 0 || line.last() != NEWLINE {
        Err(ControlError::Unterminated)
    } else if has_field(line, word_connect()) {
        match (parse_u32_spec(field_of(line, word_connect())), fd) {
            (Err(error), _) => Err(error),
            (Ok(_), None) => Err(ControlError::MissingFd),
            (Ok(port), Some(fd)) => Ok(Incoming::Connect { port, fd }),
        }
    } else if has_field(line, word_ok()) && fd is None {
        match parse_u32_spec(field_of(line, word_ok())) {
            Err(error) => Err(error),
            Ok(request_id) => Ok(Incoming::Admit(request_id)),
        }
    } else if has_field(line, word_reject()) && fd is None {
        match parse_u32_spec(field_of(line, word_reject())) {
            Err(error) => Err(error),
            Ok(request_id) => Ok(Incoming::Reject(request_id)),
        }
    } else {
        Err(ControlError::InvalidFrame)
    }
}

/// Whether the line is the word, a space and one more field.
fn line_has_field(line: &Vec<u8>, word: &Vec<u8>) -> (result: bool)
    requires
        line@.len() > 0,
        word@.len() <= 16,
    ensures
        result == has_field(line@, word@),
{
    if line.len() < word.len() + 2 {
        return false;
    }
    let mut i: usize = 0;
    while i < word.len()
        invariant
            i <= word@.len(),
            word@.len() <= 16,
            line@.len() >= word@.len() + 2,
            forall|j: int| 0 <= j < i ==> #[trigger] line@[j] == word@[j],
        decreases word.len() - i,
    {
        if line[i] != word[i] {
            assert(line@.take(word@.len() as int)[i as int] != word@[i as int]);
            return false;
        }
        i += 1;
    }
    assert(line@.take(word@.len() as int) =~= word@);
    if line[i] != SPACE {
        return false;
    }
    i += 1;
    while i < line.len() - 1
        invariant
            word@.len() <= 16,
            line@.len() >= word@.len() + 2,
            word@.len() + 1 <= i <= line@.len() - 1,
            forall|j: int| word@.len() < j < i ==> #[trigger] line@[j] != SPACE,
        decreases line.len() - i,
    {
        if line[i] == SPACE {
            return false;
        }
        i += 1;
    }
    true
}

/// What a line says. Only the three known words are taken, each with one number; a descriptor
/// comes with the first and with no other.
pub fn parse_line(line: &Vec<u8>, fd: Option<i32>) -> (result: Result<Incoming, ControlError>)
    ensures
        result == parse_line_spec(line@, fd),
{
    if line.len() == 0 || line[line.len() - 1] != NEWLINE {
        return Err(ControlError::Unterminated);
    }
    let end: usize = line.len() - 1;
    let connect: Vec<u8> = vec![0x43, 0x4f, 0x4e, 0x4e, 0x45, 0x43, 0x54];
    assert(connect@ =~= word_connect());
    if line_has_field(line, &connect) {
        return match parse_u32(line, 8, end) {
            Err(error) => Err(error),
            Ok(port) => match fd {
                None => Err(ControlError::MissingFd),
                Some(fd) => Ok(Incoming::Connect { port, fd }),
            },
        };
    }
    if fd.is_some() {
        return Err(ControlError::InvalidFrame);
    }
    let ok: Vec<u8> = vec![0x4f, 0x4b];
    assert(ok@ =~= word_ok());
    if line_has_field(line, &ok) {
        return match parse_u32(line, 3, end) {
            Err(error) => Err(error),
            Ok(request_id) => Ok(Incoming::Admit(request_id)),
        };
    }
    let reject: Vec<u8> = vec![0x52, 0x45, 0x4a, 0x45, 0x43, 0x54];
    assert(reject@ =~= word_reject());
    if line_has_field(line, &reject) {
        return match parse_u32(line, 7, end) {
            Err(error) => Err(error),
            Ok(request_id) => Ok(Incoming::Reject(request_id)),
        };
    }
    Err(ControlError::InvalidFrame)
}

/// The line that holds a word and a number.
pub open spec fn reply_line(word: Seq<u8>, number: u32) -> Seq<u8> {
    word.push(SPACE) + decimal(number as nat) + seq![NEWLINE]
}

proof fn lemma_reply_line(word: Seq<u8>, number: u32)
    requires
        word.len() <= 16,
    ensures
        has_field(reply_line(word, number), word),
        field_of(reply_line(word, number), word) == decimal(number as nat),
        parse_u32_spec(decimal(number as nat)) == Ok::<u32, ControlError>(number),
        reply_line(word, number).len() > 0,
        reply_line(word, number).last() == NEWLINE,
{
    let line = reply_line(word, number);
    law_decimal_is_canonical(number as nat);
    lemma_decimal_length(number as nat);
    assert(line.take(word.len() as int) =~= word);
    assert(field_of(line, word) =~= decimal(number as nat));
    assert forall|i: int| word.len() < i < line.len() - 1 implies #[trigger] line[i] != SPACE by {
        assert(line[i] == decimal(number as nat)[i - word.len() - 1]);
    }
}

/// Every frame that the other end can send is read back as it was meant.
pub proof fn law_frames_are_read_back(number: u32, fd: i32)
    ensures
        parse_line_spec(reply_line(word_connect(), number), Some(fd)) == Ok::<
            Incoming,
            ControlError,
        >(Incoming::Connect { port: number, fd }),
        parse_line_spec(reply_line(word_ok(), number), None) == Ok::<Incoming, ControlError>(
            Incoming::Admit(number),
        ),
        parse_line_spec(reply_line(word_reject(), number), None) == Ok::<Incoming, ControlError>(
            Incoming::Reject(number),
        ),
{
    lemma_reply_line(word_connect(), number);
    lemma_reply_line(word_ok(), number);
    lemma_reply_line(word_reject(), number);
    let ok = reply_line(word_ok(), number);
    let reject = reply_line(word_reject(), number);
    assert(!has_field(ok, word_connect())) by {
        if has_field(ok, word_connect()) {
            assert(ok.take(7)[0] == ok[0]);
        }
    }
    assert(!has_field(reject, word_connect())) by {
        if has_field(reject, word_connect()) {
            assert(reject.take(7)[0] == reject[0]);
        }
    }
    assert(!has_field(reject, word_ok())) by {
        if has_field(reject, word_ok()) {
            assert(reject.take(2)[0] == reject[0]);
        }
    }
}

/// No frame is read from a line that is not exactly what such a frame looks like.
pub proof fn law_read_frames_are_exact(line: Seq<u8>, fd: Option<i32>)
    requires
        parse_line_spec(line, fd) is Ok,
    ensures
        match parse_line_spec(line, fd) {
            Ok(Incoming::Connect { port, .. }) => line == reply_line(word_connect(), port),
            Ok(Incoming::Admit(number)) => line == reply_line(word_ok(), number),
            Ok(Incoming::Reject(number)) => line == reply_line(word_reject(), number),
            Err(_) => false,
        },
{
    let word = if has_field(line, word_connect()) {
        word_connect()
    } else if has_field(line, word_ok()) && fd is None {
        word_ok()
    } else {
        word_reject()
    };
    let field = field_of(line, word);
    law_canonical_is_decimal(field);
    let number = value_of(field) as u32;
    let n = word.len() as int;
    let built = reply_line(word, number);
    assert(built.len() == line.len());
    assert forall|i: int| 0 <= i < line.len() implies #[trigger] built[i] == line[i] by {
        if i < n {
            assert(line.take(n)[i] == line[i]);
        } else if n < i < line.len() - 1 {
            assert(field[i - n - 1] == line[i]);
        }
    }
    assert(built =~= line);
}

} // verus!
