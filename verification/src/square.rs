//! The `Square` type: one of the 64 cells of a chessboard, identified by an
//! index in `[0, 63]`, together with the inputs it can be built from and the
//! errors that construction can report.
use crate::square_set::SquareSet;
use vstd::prelude::*;
use vstd::string::StrSliceExecFns;

verus! {

/// Why a construction attempt was rejected.
#[derive(Copy, Clone, Debug, PartialEq, Eq, Structural)]
pub enum SquareError {
    /// A numeric index outside `[0, 63]`.
    OutOfRange,
    /// A textual input whose length is not exactly two characters.
    InvalidLength,
    /// A first character that is not a file letter (`a`-`h`, `A`-`H`).
    InvalidFile,
    /// A second character that is not a rank digit (`1`-`8`).
    InvalidRank,
    /// A set-to-square conversion on a mask with zero or several members.
    NotASingleton,
    /// A raw mask using bit positions beyond the 64-cell board.
    /// A 64-bit mask has no such positions, so no 64-bit input produces it;
    /// it completes the taxonomy for narrower embeddings.
    MaskOutOfRange,
}

/// Anything that can unambiguously denote a single square: a raw index, a
/// two-character algebraic notation string, a singleton set, or an existing
/// square.
pub enum Squarish {
    U8(u8),
    STR(String),
    SS(SquareSet),
    SQ(Square),
}

/// Whether `c` is a file letter, case-insensitively: `'a'..'h'` or `'A'..'H'`.
pub open spec fn is_file_char(c: char) -> bool {
    ('a' <= c && c <= 'h') || ('A' <= c && c <= 'H')
}

/// The column denoted by a file letter: its offset from `'a'` or `'A'`.
pub open spec fn col_of_file(c: char) -> int {
    if 'a' <= c && c <= 'h' {
        c as int - 'a' as int
    } else {
        c as int - 'A' as int
    }
}

/// Whether `c` is a rank digit: `'1'..'8'`.
pub open spec fn is_rank_char(c: char) -> bool {
    '1' <= c && c <= '8'
}

/// The row denoted by a rank digit: its offset from `'1'`.
pub open spec fn row_of_rank(c: char) -> int {
    c as int - '1' as int
}

/// What parsing a piece of algebraic notation yields: the board index
/// `row * 8 + col` on success, or the first applicable error: the length is
/// checked before either character, and the rank digit is validated before
/// the file letter.
pub open spec fn parse_notation(s: Seq<char>) -> Result<int, SquareError> {
    if s.len() != 2 {
        Err(SquareError::InvalidLength)
    } else if !is_rank_char(s[1]) {
        Err(SquareError::InvalidRank)
    } else if !is_file_char(s[0]) {
        Err(SquareError::InvalidFile)
    } else {
        Ok(row_of_rank(s[1]) * 8 + col_of_file(s[0]))
    }
}

/// Whether exactly one bit of `mask` is set.
pub open spec fn is_singleton(mask: u64) -> bool {
    exists|i: u64| i < 64 && mask == (1u64 << i)
}

/// The position of the single set bit of a singleton mask.
pub open spec fn singleton_index(mask: u64) -> int {
    (choose|i: u64| i < 64 && mask == (1u64 << i)) as int
}

/// The board index that a `Squarish` value denotes, or the error construction
/// reports for it. This is the complete model of square construction.
pub open spec fn square_index_of(q: Squarish) -> Result<int, SquareError> {
    match q {
        Squarish::U8(u) => if u <= 63 {
            Ok(u as int)
        } else {
            Err(SquareError::OutOfRange)
        },
        Squarish::STR(s) => parse_notation(s@),
        Squarish::SS(ss) => if is_singleton(ss.mask) {
            Ok(singleton_index(ss.mask))
        } else {
            Err(SquareError::NotASingleton)
        },
        Squarish::SQ(sq) => Ok(sq@),
    }
}

/// The lower-case file letter of column `col`: the `col`-th letter of
/// `"abcdefgh"`.
pub open spec fn file_char(col: int) -> char {
    ('a' as int + col) as char
}

/// The rank digit of row `row`: `'1'..'8'`.
pub open spec fn rank_char(row: int) -> char {
    ('1' as int + row) as char
}

/// The canonical two-character rendering of board index `i`: lower-case file
/// letter, then rank digit.
pub open spec fn notation_of(i: int) -> Seq<char> {
    seq![file_char(i % 8), rank_char(i / 8)]
}

/// One of the 64 cells of the board.
///
/// The index is always in `[0, 63]`: a `Square` exists only through
/// validated construction and is never mutated afterwards.
#[derive(Copy, Clone, Debug, PartialEq, Eq, Structural, Hash, PartialOrd, Ord)]
pub struct Square {
    index: u8,
}

impl View for Square {
    type V = int;

    closed spec fn view(&self) -> int {
        self.index as int
    }
}

impl Square {
    #[verifier::type_invariant]
    pub closed spec fn inv(self) -> bool {
        self.index <= 63
    }

    /// The raw board index, in `[0, 63]`.
    pub fn index(&self) -> (r: u8)
        ensures
            r as int == self@,
            r <= 63,
    {
        proof {
            use_type_invariant(&self);
        }
        self.index
    }

    /// Build a validated `Square` from any supported encoding, or report
    /// exactly why the input denotes no square. Construction is a pure
    /// function of the input: `square_index_of` is its complete model.
    pub fn from(initializer: Squarish) -> (r: Result<Square, SquareError>)
        ensures
            ({
                match square_index_of(initializer) {
                    Ok(i) => r is Ok && r->Ok_0@ == i,
                    Err(e) => r == Err::<Square, SquareError>(e),
                }
            }),
            initializer matches Squarish::SQ(s) ==> r == Ok::<Square, SquareError>(s),
    {
        match initializer {
            Squarish::U8(u) => {
                if u <= 63 {
                    Ok(Square { index: u })
                } else {
                    Err(SquareError::OutOfRange)
                }
            },
            Squarish::STR(s) => Self::from_notation(s.as_str()),
            Squarish::SS(ss) => Self::from_singleton(&ss),
            Squarish::SQ(sq) => Ok(sq),
        }
    }

    /// Parse two-character algebraic notation (`"e4"`) into a square.
    fn from_notation(s: &str) -> (r: Result<Square, SquareError>)
        ensures
            ({
                match parse_notation(s@) {
                    Ok(i) => r is Ok && r->Ok_0@ == i,
                    Err(e) => r == Err::<Square, SquareError>(e),
                }
            }),
    {
        if s.unicode_len() != 2 {
            return Err(SquareError::InvalidLength);
        }
        let file = s.get_char(0);
        let rank = s.get_char(1);
        let row: u32 = if '1' <= rank && rank <= '8' {
            rank as u32 - '1' as u32
        } else {
            return Err(SquareError::InvalidRank);
        };
        let col: u32 = if 'a' <= file && file <= 'h' {
            file as u32 - 'a' as u32
        } else if 'A' <= file && file <= 'H' {
            file as u32 - 'A' as u32
        } else {
            return Err(SquareError::InvalidFile);
        };
        Ok(Square { index: (row * 8 + col) as u8 })
    }

    /// Extract the single member of a singleton set: the position of the one
    /// set bit, found by scanning the 64 candidate one-hot masks.
    fn from_singleton(ss: &SquareSet) -> (r: Result<Square, SquareError>)
        ensures
            is_singleton(ss.mask) ==> r is Ok && r->Ok_0@ == singleton_index(ss.mask),
            !is_singleton(ss.mask) ==> r == Err::<Square, SquareError>(
                SquareError::NotASingleton,
            ),
    {
        let mask = ss.mask;
        let mut i: u8 = 0;
        while i < 64
            invariant
                i <= 64,
                mask == ss.mask,
                forall|j: u64| j < i ==> mask != (1u64 << j),
            decreases 64 - i,
        {
            if mask == (1u64 << (i as u64)) {
                proof {
                    assert(is_singleton(mask)) by {
                        assert((i as u64) < 64 && mask == (1u64 << (i as u64)));
                    }
                    let j = choose|j: u64| j < 64 && mask == (1u64 << j);
                    lemma_one_hot_injective(i as u64, j);
                }
                return Ok(Square { index: i });
            }
            i = i + 1;
        }
        Err(SquareError::NotASingleton)
    }

    /// The `(row, col)` view: `row = index / 8`, `col = index % 8`, both in `[0, 7]`.
    pub fn rc(&self) -> (r: (u8, u8))
        ensures
            r.0 as int == self@ / 8,
            r.1 as int == self@ % 8,
            r.0 <= 7 && r.1 <= 7,
    {
        proof {
            use_type_invariant(&self);
        }
        (self.index / 8, self.index % 8)
    }

    /// The `(rank, file)` view: rank `row + 1` in `[1, 8]`, file the
    /// lower-case letter of the column.
    pub fn rf(&self) -> (r: (u8, char))
        ensures
            r.0 as int == self@ / 8 + 1,
            r.1 == file_char(self@ % 8),
    {
        proof {
            use_type_invariant(&self);
        }
        let col = self.index % 8;
        (self.index / 8 + 1, (97 + col) as char)
    }

    /// Render this square as canonical algebraic notation: always exactly two
    /// characters, lower-case file letter followed by rank digit.
    pub fn to_string(&self) -> (r: String)
        ensures
            r@ == notation_of(self@),
    {
        proof {
            use_type_invariant(&self);
        }
        let (rank, file) = self.rf();
        let mut r = String::new();
        push_char(&mut r, file);
        push_char(&mut r, (48 + rank) as char);
        proof {
            assert(r@ =~= notation_of(self@));
        }
        r
    }
}

/// Relies on `String::push`: appends exactly the given character to the end
/// of the string.
#[verifier::external_body]
fn push_char(s: &mut String, c: char)
    ensures
        final(s)@ == old(s)@.push(c),
{
    s.push(c)
}

/// A square is determined by its view: equal board indices mean equal
/// squares, so a contract that pins the view pins the square itself.
pub proof fn lemma_square_view_injective(a: Square, b: Square)
    ensures
        a@ == b@ ==> a == b,
{
}

/// Round trip: rendering any board index to algebraic notation and parsing
/// the result yields the index back. Together with the contracts of
/// `Square::to_string` and `Square::from`, every `Square` survives
/// `Square::from(Squarish::STR(s.to_string()))` unchanged.
pub proof fn lemma_round_trip(i: int)
    requires
        0 <= i < 64,
    ensures
        parse_notation(notation_of(i)) == Ok::<int, SquareError>(i),
{
    vstd::arithmetic::div_mod::lemma_fundamental_div_mod(i, 8);
}

/// Case-insensitivity: a two-character notation whose file letter is written
/// in upper case parses exactly as the lower-case spelling does.
pub proof fn lemma_case_insensitive(s: Seq<char>, t: Seq<char>)
    requires
        s.len() == 2,
        t.len() == 2,
        s[1] == t[1],
        'a' <= s[0] && s[0] <= 'h',
        t[0] as int == s[0] as int - 32,
    ensures
        parse_notation(s) == parse_notation(t),
{
}

/// Two distinct bit positions give distinct one-hot masks.
proof fn lemma_one_hot_injective(i: u64, j: u64)
    requires
        i < 64,
        j < 64,
        (1u64 << i) == (1u64 << j),
    ensures
        i == j,
{
    assert(i < 64 && j < 64 && (1u64 << i) == (1u64 << j) ==> i == j) by (bit_vector);
}

/// A one-hot mask is a singleton, and its member is the shifted-in bit's
/// position: `singleton_index` inverts `1 << i` on the board's 64 positions.
pub proof fn lemma_singleton_index(i: u64)
    requires
        i < 64,
    ensures
        is_singleton(1u64 << i),
        singleton_index(1u64 << i) == i,
{
    assert(is_singleton(1u64 << i)) by {
        assert(i < 64 && (1u64 << i) == (1u64 << i));
    }
    let j = choose|j: u64| j < 64 && (1u64 << i) == (1u64 << j);
    lemma_one_hot_injective(i, j);
}

} // verus!
