//! The byte-addressable memory store and its loading strategies.
//!
//! A `Memory` is a fixed, ordered sequence of bytes. It can be built
//! empty, from hex-encoded text (whitespace-insensitive, strict even
//! digit count), or from a raw binary image placed at a logical offset.
//! Reads go through the console's addressing transform: the logical
//! address is floor-divided by four to obtain the physical index.

use vstd::prelude::*;
use vstd::string::StrSliceExecFns;

verus! {

/// Why a loader or a read failed.
#[derive(Clone, Copy, Debug, PartialEq, Eq, Structural)]
pub enum MemoryError {
    /// A program image file could not be opened or read.
    IOError,
    /// Hex text broke the even-length / valid-digit contract.
    DecodeError,
    /// A read address maps to an index past the end of the store.
    OutOfBoundsError,
}

/// The characters that hex text may use as separators: they are
/// stripped before decoding.
pub open spec fn is_separator(c: char) -> bool {
    c == '\n' || c == ' '
}

/// Hex text with its newlines and spaces removed.
pub open spec fn strip_separators(s: Seq<char>) -> Seq<char> {
    s.filter(|c: char| !is_separator(c))
}

/// Whether `c` is a hexadecimal digit, either case.
pub open spec fn is_hex_digit(c: char) -> bool {
    ||| c == '0' || c == '1' || c == '2' || c == '3' || c == '4'
    ||| c == '5' || c == '6' || c == '7' || c == '8' || c == '9'
    ||| c == 'a' || c == 'b' || c == 'c' || c == 'd' || c == 'e' || c == 'f'
    ||| c == 'A' || c == 'B' || c == 'C' || c == 'D' || c == 'E' || c == 'F'
}

/// The value of a hexadecimal digit (zero on any other character).
pub open spec fn hex_digit_val(c: char) -> u8 {
    if c == '0' { 0 } else if c == '1' { 1 } else if c == '2' { 2 }
    else if c == '3' { 3 } else if c == '4' { 4 } else if c == '5' { 5 }
    else if c == '6' { 6 } else if c == '7' { 7 } else if c == '8' { 8 }
    else if c == '9' { 9 }
    else if c == 'a' || c == 'A' { 10 } else if c == 'b' || c == 'B' { 11 }
    else if c == 'c' || c == 'C' { 12 } else if c == 'd' || c == 'D' { 13 }
    else if c == 'e' || c == 'E' { 14 } else if c == 'f' || c == 'F' { 15 }
    else { 0 }
}

/// The byte encoded by one pair of hex digits, high digit first.
pub open spec fn hex_pair_val(hi: char, lo: char) -> u8 {
    (hex_digit_val(hi) * 16 + hex_digit_val(lo)) as u8
}

/// Whether stripped hex text is well formed: even length, every
/// character a hex digit.
pub open spec fn valid_hex(s: Seq<char>) -> bool {
    &&& s.len() % 2 == 0
    &&& forall|i: int| 0 <= i < s.len() ==> is_hex_digit(#[trigger] s[i])
}

/// The bytes encoded by well-formed stripped hex text, in input order:
/// one byte per pair of digits.
pub open spec fn decode_hex_pairs(s: Seq<char>) -> Seq<u8> {
    Seq::new(s.len() / 2, |k: int| hex_pair_val(s[2 * k], s[2 * k + 1]))
}

/// Whether a logical address is misaligned: not a multiple of four, the
/// width of the addressing transform. A misaligned read still succeeds —
/// it lands on the byte at the floor-divided index — but the console
/// reports it as a diagnostic warning at its edge.
pub open spec fn spec_is_misaligned(address: u16) -> bool {
    address % 4 != 0
}

/// Exec twin of [`spec_is_misaligned`], for the diagnostic edge.
pub fn is_misaligned(address: u16) -> (r: bool)
    ensures
        r == spec_is_misaligned(address),
{
    address % 4 != 0
}

/// Every character that stripping keeps out of separator-or-digit text
/// is a hex digit.
proof fn lemma_strip_keeps_hex(s: Seq<char>)
    requires
        forall|i: int| 0 <= i < s.len() ==> is_separator(#[trigger] s[i]) || is_hex_digit(s[i]),
    ensures
        forall|j: int| 0 <= j < strip_separators(s).len()
            ==> is_hex_digit(#[trigger] strip_separators(s)[j]),
    decreases s.len(),
{
    reveal(Seq::filter);
    if s.len() > 0 {
        let t = s.drop_last();
        lemma_strip_keeps_hex(t);
        if !is_separator(s.last()) {
            assert(strip_separators(s) == strip_separators(t).push(s.last()));
            assert(is_hex_digit(s.last()));
        } else {
            assert(strip_separators(s) == strip_separators(t));
        }
    }
}

/// Law: text made only of separators (newlines and spaces) and
/// hexadecimal digit pairs — an even digit count once the separators
/// are stripped — is always accepted: its stripped form is well formed,
/// so [`Memory::new_from_string`] succeeds and the store holds half as
/// many bytes as there are digits.
pub proof fn lemma_separated_hex_text_loads(s: Seq<char>)
    requires
        forall|i: int| 0 <= i < s.len() ==> is_separator(#[trigger] s[i]) || is_hex_digit(s[i]),
        strip_separators(s).len() % 2 == 0,
    ensures
        valid_hex(strip_separators(s)),
        decode_hex_pairs(strip_separators(s)).len() == strip_separators(s).len() / 2,
{
    lemma_strip_keeps_hex(s);
}

/// The byte store. Its length is fixed at construction; its logical
/// address space is four times its physical length (see [`Memory::read`]).
pub struct Memory {
    raw: Vec<u8>,
}

impl View for Memory {
    type V = Seq<u8>;

    closed spec fn view(&self) -> Seq<u8> {
        self.raw@
    }
}

/// The value of `c` as a hexadecimal digit, or `None` when it is not one.
fn hex_digit_value(c: char) -> (r: Option<u8>)
    ensures
        r is Some <==> is_hex_digit(c),
        r is Some ==> r->0 == hex_digit_val(c),
{
    match c {
        '0' => Some(0), '1' => Some(1), '2' => Some(2), '3' => Some(3),
        '4' => Some(4), '5' => Some(5), '6' => Some(6), '7' => Some(7),
        '8' => Some(8), '9' => Some(9),
        'a' | 'A' => Some(10), 'b' | 'B' => Some(11), 'c' | 'C' => Some(12),
        'd' | 'D' => Some(13), 'e' | 'E' => Some(14), 'f' | 'F' => Some(15),
        _ => None,
    }
}

impl Memory {
    /// A store with a zero-length backing sequence.
    pub fn new() -> (r: Memory)
        ensures
            r@ =~= Seq::<u8>::empty(),
    {
        Memory { raw: Vec::new() }
    }

    /// Read the byte addressed by `address` under the console's
    /// addressing transform: the physical index is `address / 4`
    /// (floor division), so a misaligned address reads the same byte
    /// as the aligned address below it. An index past the end of the
    /// store is an [`MemoryError::OutOfBoundsError`].
    pub fn read(&self, address: u16) -> (r: Result<u8, MemoryError>)
        ensures
            address as int / 4 < self@.len() ==> r == Ok::<u8, MemoryError>(self@[address as int / 4]),
            address as int / 4 >= self@.len() ==> r == Err::<u8, MemoryError>(MemoryError::OutOfBoundsError),
    {
        let index = (address / 4) as usize;
        if index < self.raw.len() {
            Ok(self.raw[index])
        } else {
            Err(MemoryError::OutOfBoundsError)
        }
    }

    /// Build a store from hex-encoded text.
    ///
    /// Every newline and space is removed first; what remains must have
    /// even length and consist solely of hexadecimal digits (either
    /// case), else the load fails with [`MemoryError::DecodeError`].
    /// On success each consecutive pair of digits decodes to one byte,
    /// in input order. An empty or all-whitespace input yields the
    /// empty store.
    pub fn new_from_string(program: &str) -> (r: Result<Memory, MemoryError>)
        ensures
            valid_hex(strip_separators(program@)) <==> r is Ok,
            r is Ok ==> r->Ok_0@ == decode_hex_pairs(strip_separators(program@)),
            r is Ok ==> r->Ok_0@.len() == strip_separators(program@).len() / 2,
            r is Err ==> r == Err::<Memory, MemoryError>(MemoryError::DecodeError),
    {
        let n = program.unicode_len();
        let mut stripped: Vec<char> = Vec::new();
        let mut i: usize = 0;
        while i < n
            invariant
                i <= n,
                n == program@.len(),
                stripped@ == strip_separators(program@.take(i as int)),
            decreases n - i,
        {
            let c = program.get_char(i);
            proof {
                reveal(Seq::filter);
                assert(program@.take(i + 1).drop_last() =~= program@.take(i as int));
                assert(program@.take(i + 1).last() == c);
            }
            if !(c == '\n' || c == ' ') {
                stripped.push(c);
            }
            i += 1;
        }
        proof {
            assert(program@.take(n as int) =~= program@);
        }
        if stripped.len() % 2 != 0 {
            return Err(MemoryError::DecodeError);
        }
        let pairs = stripped.len() / 2;
        let mut raw: Vec<u8> = Vec::new();
        let mut k: usize = 0;
        while k < pairs
            invariant
                k <= pairs,
                pairs <= usize::MAX / 2,
                pairs == stripped@.len() / 2,
                stripped@.len() % 2 == 0,
                stripped@ == strip_separators(program@),
                raw@.len() == k,
                forall|j: int| 0 <= j < 2 * k ==> is_hex_digit(#[trigger] stripped@[j]),
                forall|j: int| 0 <= j < k ==>
                    #[trigger] raw@[j] == hex_pair_val(stripped@[2 * j], stripped@[2 * j + 1]),
            decreases pairs - k,
        {
            let hi = match hex_digit_value(stripped[2 * k]) {
                Some(v) => v,
                None => {
                    proof {
                        assert(!is_hex_digit(stripped@[2 * (k as int)]));
                        assert(!valid_hex(stripped@));
                    }
                    return Err(MemoryError::DecodeError);
                },
            };
            let lo = match hex_digit_value(stripped[2 * k + 1]) {
                Some(v) => v,
                None => {
                    proof {
                        assert(!is_hex_digit(stripped@[2 * (k as int) + 1]));
                        assert(!valid_hex(stripped@));
                    }
                    return Err(MemoryError::DecodeError);
                },
            };
            proof {
                assert(hex_digit_val(stripped@[2 * (k as int)]) <= 15);
                assert(hex_digit_val(stripped@[2 * (k as int) + 1]) <= 15);
            }
            raw.push(hi * 16 + lo);
            k += 1;
        }
        proof {
            assert(raw@ =~= decode_hex_pairs(stripped@));
        }
        Ok(Memory { raw })
    }

    /// Build a store from a raw binary image placed at a logical offset:
    /// `start_address / 4` zero bytes (integer division), then the
    /// image's bytes verbatim, in order. Always succeeds.
    pub fn new_from_binary(contents: Vec<u8>, start_address: usize) -> (r: Memory)
        ensures
            r@ == Seq::new(start_address as nat / 4, |i: int| 0u8) + contents@,
    {
        let ghost image = contents@;
        let mut raw: Vec<u8> = vec![0u8; start_address / 4];
        let mut rest = contents;
        raw.append(&mut rest);
        proof {
            assert(raw@ =~= Seq::new(start_address as nat / 4, |i: int| 0u8) + image);
        }
        Memory { raw }
    }

    /// The loaded bytes, in order.
    pub fn raw(&self) -> (r: &Vec<u8>)
        ensures
            r@ == self@,
    {
        &self.raw
    }
}

} // verus!
