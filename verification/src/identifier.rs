//! Identifiers of installed artifact sets and their textual form.

use vstd::prelude::*;
use vstd::string::*;

verus! {

/// Start value of the digest.
pub const DIGEST_SEED: u64 = 0xcbf2_9ce4_8422_2325;

/// Multiplier of the digest.
pub const DIGEST_FACTOR: u64 = 0x0000_0100_0000_01b3;

/// Number of hexadecimal digits that render a digest.
pub const DIGEST_WIDTH: usize = 16;

/// The identity of one generation's artifact set: the generation's version
/// and a digest of the path of its system tree.
#[derive(Clone, Copy, Debug, PartialEq, Eq, Structural, Hash)]
pub struct Identifier {
    pub version: u64,
    pub digest: u64,
}

/// One round of the digest: the byte is mixed into the state, which is then
/// multiplied, discarding what does not fit in 64 bits.
pub open spec fn absorb(state: u64, byte: u8) -> u64 {
    (state ^ (byte as u64)).wrapping_mul(DIGEST_FACTOR)
}

/// The 64-bit FNV-1a digest of a byte string.
pub open spec fn digest_of(bytes: Seq<u8>) -> u64
    decreases bytes.len(),
{
    if bytes.len() == 0 {
        DIGEST_SEED
    } else {
        absorb(digest_of(bytes.drop_last()), bytes.last())
    }
}

/// The character that writes a digit below sixteen, in lower case.
pub open spec fn digit_char(d: nat) -> char {
    if d < 10 {
        ((d + 48) as u8) as char
    } else {
        ((d + 87) as u8) as char
    }
}

/// The decimal numeral of `n`, without leading zeros.
pub open spec fn decimal(n: nat) -> Seq<char>
    decreases n,
{
    if n < 10 {
        seq![digit_char(n)]
    } else {
        decimal(n / 10).push(digit_char(n % 10))
    }
}

/// The last `width` hexadecimal digits of `n`, most significant first.
pub open spec fn hexadecimal(n: nat, width: nat) -> Seq<char>
    decreases width,
{
    if width == 0 {
        Seq::empty()
    } else {
        hexadecimal(n / 16, (width - 1) as nat).push(digit_char(n % 16))
    }
}

/// The text of an identifier: the version in decimal, a hyphen, and the
/// digest in sixteen hexadecimal digits.
pub open spec fn token_text(id: Identifier) -> Seq<char> {
    decimal(id.version as nat) + seq!['-'] + hexadecimal(id.digest as nat, DIGEST_WIDTH as nat)
}

/// Strict order of identifiers: by version, then by digest.
pub open spec fn above(a: Identifier, b: Identifier) -> bool {
    a.version > b.version || (a.version == b.version && a.digest > b.digest)
}

/// Whether `c` is one of the digits `0` to `9`.
pub open spec fn is_decimal_digit(c: char) -> bool {
    '0' <= c <= '9'
}

/// Whether `c` is a hexadecimal digit in lower case.
pub open spec fn is_hex_digit(c: char) -> bool {
    '0' <= c <= '9' || 'a' <= c <= 'f'
}

/// The number that a digit stands for.
pub open spec fn digit_value(c: char) -> nat {
    if c <= '9' {
        (c as nat - 48) as nat
    } else {
        (c as nat - 87) as nat
    }
}

/// The number that a string of digits writes in the given base.
pub open spec fn numeral_value(digits: Seq<char>, base: nat) -> nat
    decreases digits.len(),
{
    if digits.len() == 0 {
        0
    } else {
        base * numeral_value(digits.drop_last(), base) + digit_value(digits.last())
    }
}

/// Sixteen to the power of `width`.
pub open spec fn span(width: nat) -> nat
    decreases width,
{
    if width == 0 {
        1
    } else {
        16 * span((width - 1) as nat)
    }
}

/// Computes the digest of a byte string.
pub fn digest(bytes: &[u8]) -> (d: u64)
    ensures
        d == digest_of(bytes@),
{
    let mut state: u64 = DIGEST_SEED;
    let mut i: usize = 0;
    while i < bytes.len()
        invariant
            i <= bytes.len(),
            state == digest_of(bytes@.take(i as int)),
        decreases bytes.len() - i,
    {
        proof {
            assert(bytes@.take(i + 1).drop_last() =~= bytes@.take(i as int));
        }
        state = (state ^ (bytes[i] as u64)).wrapping_mul(DIGEST_FACTOR);
        i += 1;
    }
    proof {
        assert(bytes@.take(i as int) =~= bytes@);
    }
    state
}

/// The one-character text of a digit below sixteen.
fn digit_text(d: u8) -> (text: &'static str)
    requires
        d < 16,
    ensures
        text@ == seq![digit_char(d as nat)],
{
    proof {
        reveal_strlit("0");
        reveal_strlit("1");
        reveal_strlit("2");
        reveal_strlit("3");
        reveal_strlit("4");
        reveal_strlit("5");
        reveal_strlit("6");
        reveal_strlit("7");
        reveal_strlit("8");
        reveal_strlit("9");
        reveal_strlit("a");
        reveal_strlit("b");
        reveal_strlit("c");
        reveal_strlit("d");
        reveal_strlit("e");
        reveal_strlit("f");
    }
    match d {
        0 => "0",
        1 => "1",
        2 => "2",
        3 => "3",
        4 => "4",
        5 => "5",
        6 => "6",
        7 => "7",
        8 => "8",
        9 => "9",
        10 => "a",
        11 => "b",
        12 => "c",
        13 => "d",
        14 => "e",
        _ => "f",
    }
}

/// Writes `n` in decimal.
pub fn render_decimal(n: u64) -> (text: String)
    ensures
        text@ == decimal(n as nat),
    decreases n,
{
    if n < 10 {
        digit_text(n as u8).to_owned()
    } else {
        let mut text = render_decimal(n / 10);
        let digit = digit_text((n % 10) as u8);
        text.append(digit);
        text
    }
}

/// Writes the last `width` hexadecimal digits of `n`.
pub fn render_hexadecimal(n: u64, width: usize) -> (text: String)
    ensures
        text@ == hexadecimal(n as nat, width as nat),
    decreases width,
{
    if width == 0 {
        String::new()
    } else {
        let mut text = render_hexadecimal(n / 16, width - 1);
        let digit = digit_text((n % 16) as u8);
        text.append(digit);
        text
    }
}

impl Identifier {
    /// The identifier of a generation with the given version whose system
    /// tree lies at `toplevel`.
    pub fn new(version: u64, toplevel: &str) -> (id: Identifier)
        ensures
            id.version == version,
            id.digest == digest_of(toplevel.spec_bytes()),
    {
        Identifier { version, digest: digest(toplevel.as_bytes()) }
    }

    /// Whether `self` comes before `other` when artifact sets are ranked
    /// for retention.
    pub fn outranks(&self, other: &Identifier) -> (result: bool)
        ensures
            result == above(*self, *other),
    {
        self.version > other.version || (self.version == other.version && self.digest
            > other.digest)
    }

    /// Reads an identifier back from its text. Any other text, such as one
    /// with a leading zero or an upper-case digit, names no identifier.
    pub fn parse(text: &str) -> (result: Option<Identifier>)
        ensures
            match result {
                Some(id) => text@ == token_text(id),
                None => forall|id: Identifier| token_text(id) != text@,
            },
    {
        if !text.is_ascii() {
            proof {
                assert forall|id: Identifier| token_text(id) != text@ by {
                    lemma_token_shape(id);
                }
            }
            return None;
        }
        let bytes = text.as_bytes();
        proof {
            is_ascii_spec_bytes(text);
        }
        let length: usize = bytes.len();
        if length <= DIGEST_WIDTH + 1 {
            proof {
                assert forall|id: Identifier| token_text(id) != text@ by {
                    lemma_token_shape(id);
                }
            }
            return None;
        }
        let split: usize = length - DIGEST_WIDTH - 1;
        let ghost head = text@.take(split as int);
        let ghost tail = text@.skip(split + 1);
        let mut version: u64 = 0;
        let mut i: usize = 0;
        while i < split
            invariant
                i <= split < length,
                split + 1 + DIGEST_WIDTH == length,
                length == text@.len(),
                length == bytes@.len(),
                head == text@.take(split as int),
                forall|k: int| 0 <= k < length ==> bytes@[k] == #[trigger] text@[k] as u8,
                vstd::utf8::is_ascii_chars(text@),
                version == numeral_value(head.take(i as int), 10),
            decreases split - i,
        {
            let byte: u8 = bytes[i];
            proof {
                assert(head.take(i + 1).drop_last() =~= head.take(i as int));
                assert(head.take(i + 1).last() == text@[i as int]);
            }
            if byte < 48 || byte > 57 {
                proof {
                    assert forall|id: Identifier| token_text(id) != text@ by {
                        lemma_token_shape(id);
                    }
                }
                return None;
            }
            let digit: u64 = (byte - 48) as u64;
            if version > (u64::MAX - digit) / 10 {
                proof {
                    lemma_numeral_prefix(head, 10, i + 1);
                    assert forall|id: Identifier| token_text(id) != text@ by {
                        lemma_token_shape(id);
                    }
                }
                return None;
            }
            version = version * 10 + digit;
            i += 1;
        }
        proof {
            assert(head.take(split as int) =~= head);
        }
        if bytes[split] != 45 {
            proof {
                assert forall|id: Identifier| token_text(id) != text@ by {
                    lemma_token_shape(id);
                }
            }
            return None;
        }
        let mut value: u64 = 0;
        let mut j: usize = 0;
        while j < DIGEST_WIDTH
            invariant
                j <= DIGEST_WIDTH,
                length == text@.len(),
                length == bytes@.len(),
                split + 1 + DIGEST_WIDTH == length,
                tail == text@.skip(split + 1),
                forall|k: int| 0 <= k < length ==> bytes@[k] == #[trigger] text@[k] as u8,
                vstd::utf8::is_ascii_chars(text@),
                value == numeral_value(tail.take(j as int), 16),
                value < span(j as nat),
            decreases DIGEST_WIDTH - j,
        {
            let byte: u8 = bytes[split + 1 + j];
            proof {
                assert(tail.take(j + 1).drop_last() =~= tail.take(j as int));
                assert(tail.take(j + 1).last() == text@[split + 1 + j]);
                lemma_span_grows((j + 1) as nat, DIGEST_WIDTH as nat);
                lemma_span_of_digest();
            }
            let decimal_digit: bool = 48 <= byte && byte <= 57;
            let letter_digit: bool = 97 <= byte && byte <= 102;
            if !decimal_digit && !letter_digit {
                proof {
                    assert forall|id: Identifier| token_text(id) != text@ by {
                        lemma_token_shape(id);
                    }
                }
                return None;
            }
            let digit: u64 = if decimal_digit {
                (byte - 48) as u64
            } else {
                (byte - 87) as u64
            };
            value = value * 16 + digit;
            j += 1;
        }
        proof {
            assert(tail.take(DIGEST_WIDTH as int) =~= tail);
        }
        let candidate = Identifier { version, digest: value };
        let rendered = candidate.token();
        let given = text.to_owned();
        if rendered == given {
            Some(candidate)
        } else {
            proof {
                assert forall|id: Identifier| token_text(id) != text@ by {
                    lemma_token_shape(id);
                }
            }
            None
        }
    }

    /// The text by which the files of this artifact set are named.
    pub fn token(&self) -> (text: String)
        ensures
            text@ == token_text(*self),
    {
        let mut text = render_decimal(self.version);
        proof {
            reveal_strlit("-");
        }
        text.append("-");
        let digits = render_hexadecimal(self.digest, DIGEST_WIDTH);
        text.append(digits.as_str());
        text
    }
}

/// A decimal numeral holds decimal digits only and writes its number.
pub proof fn lemma_decimal(n: nat)
    ensures
        decimal(n).len() >= 1,
        forall|i: int| 0 <= i < decimal(n).len() ==> is_decimal_digit(#[trigger] decimal(n)[i]),
        numeral_value(decimal(n), 10) == n,
    decreases n,
{
    if n < 10 {
        assert(numeral_value(decimal(n).drop_last(), 10) == 0);
    } else {
        lemma_decimal(n / 10);
        assert(decimal(n).drop_last() =~= decimal(n / 10));
    }
}

/// A hexadecimal numeral of a given width has that many digits and writes
/// its number where the number fits in the width.
pub proof fn lemma_hexadecimal(n: nat, width: nat)
    ensures
        hexadecimal(n, width).len() == width,
        forall|i: int|
            0 <= i < width ==> is_hex_digit(#[trigger] hexadecimal(n, width)[i]),
        n < span(width) ==> numeral_value(hexadecimal(n, width), 16) == n,
    decreases width,
{
    if width > 0 {
        lemma_hexadecimal(n / 16, (width - 1) as nat);
        assert(hexadecimal(n, width).drop_last() =~= hexadecimal(n / 16, (width - 1) as nat));
    }
}

/// Sixteen hexadecimal digits span the 64-bit numbers.
pub proof fn lemma_span_of_digest()
    ensures
        span(DIGEST_WIDTH as nat) == 0x1_0000_0000_0000_0000,
{
    reveal_with_fuel(span, 17);
}

/// The powers of sixteen grow with the exponent.
pub proof fn lemma_span_grows(a: nat, b: nat)
    requires
        a <= b,
    ensures
        1 <= span(a) <= span(b),
    decreases b,
{
    if b > 0 {
        if a < b {
            lemma_span_grows(a, (b - 1) as nat);
        } else {
            lemma_span_grows((a - 1) as nat, (b - 1) as nat);
        }
    }
}

/// What the first digits of a numeral write is at most what all of them
/// write.
pub proof fn lemma_numeral_prefix(digits: Seq<char>, base: nat, k: int)
    requires
        0 <= k <= digits.len(),
        base >= 1,
    ensures
        numeral_value(digits.take(k), base) <= numeral_value(digits, base),
    decreases digits.len(),
{
    if k == digits.len() {
        assert(digits.take(k) =~= digits);
    } else {
        lemma_numeral_prefix(digits.drop_last(), base, k);
        assert(digits.drop_last().take(k) =~= digits.take(k));
        let rest = numeral_value(digits.drop_last(), base);
        assert(rest <= base * rest) by (nonlinear_arith)
            requires
                base >= 1,
        ;
    }
}

/// The parts of an identifier's text: where the hyphen stands, what lies
/// before and after it, and the numbers that the two parts write.
pub proof fn lemma_token_shape(id: Identifier)
    ensures
        ({
            let text = token_text(id);
            let split = text.len() - 17;
            &&& text.len() >= 18
            &&& vstd::utf8::is_ascii_chars(text)
            &&& text.take(split) == decimal(id.version as nat)
            &&& text[split] == '-'
            &&& text.skip(split + 1) == hexadecimal(id.digest as nat, DIGEST_WIDTH as nat)
            &&& forall|i: int| 0 <= i < split ==> is_decimal_digit(#[trigger] text[i])
            &&& forall|i: int| split < i < text.len() ==> is_hex_digit(#[trigger] text[i])
            &&& numeral_value(text.take(split), 10) == id.version
            &&& numeral_value(text.skip(split + 1), 16) == id.digest
        }),
{
    lemma_decimal(id.version as nat);
    lemma_hexadecimal(id.digest as nat, DIGEST_WIDTH as nat);
    lemma_span_of_digest();
}

/// Two identifiers with the same text are the same identifier.
pub proof fn law_token_names_one_identifier(a: Identifier, b: Identifier)
    requires
        token_text(a) == token_text(b),
    ensures
        a == b,
{
    lemma_token_shape(a);
    lemma_token_shape(b);
}

/// Identifiers of different versions have different texts, whatever their
/// digests.
pub proof fn law_versions_tell_tokens_apart(a: Identifier, b: Identifier)
    requires
        a.version != b.version,
    ensures
        token_text(a) != token_text(b),
{
    if token_text(a) == token_text(b) {
        law_token_names_one_identifier(a, b);
    }
}

} // verus!
