//! Which source texts the parser can be handed.
//!
//! The parser reads every literal token that it meets, and gives up with a
//! panic on the two kinds that it does not know: a C string literal and the
//! marker that the compiler leaves where a macro failed to expand. A text
//! is handed to the parser only if neither stands in it as a token.
//!
//! To tell a token from the same characters inside a comment or another
//! literal, the text is walked as the lexer walks it: comments, string,
//! byte-string and raw-string literals, character and byte literals are
//! stepped over as a whole. Everything else goes byte by byte, and the walk
//! remembers whether the byte before continues a word, since a `c` that
//! does is part of an identifier or of a suffix. Behind a byte that is not
//! ASCII the walk cannot tell; a literal's prefix there is refused.

use vstd::prelude::*;
use vstd::string::StringSliceAdditionalSpecFns;

verus! {

/// The byte of a line feed.
pub const NEWLINE: u8 = 10;

/// The byte `"`.
pub const QUOTE: u8 = 34;

/// The byte `#`.
pub const POUND: u8 = 35;

/// The byte `'`.
pub const TICK: u8 = 39;

/// The byte `(`.
pub const PAREN: u8 = 40;

/// The byte `*`.
pub const STAR: u8 = 42;

/// The byte `/`.
pub const SLASH: u8 = 47;

/// The byte `\`.
pub const BACKSLASH: u8 = 92;

/// The byte `b`.
pub const LOWER_B: u8 = 98;

/// The byte `c`.
pub const LOWER_C: u8 = 99;

/// The byte `r`.
pub const LOWER_R: u8 = 114;

/// The byte `u`.
pub const LOWER_U: u8 = 117;

/// The byte `x`.
pub const LOWER_X: u8 = 120;

/// The byte `}`.
pub const BRACE_CLOSE: u8 = 125;

/// How many bytes the marker of a failed expansion has.
pub const MARKER_LEN: usize = 11;

/// What the walk knows of the byte before the place it looks at.
#[derive(Clone, Copy, Debug)]
pub enum Before {
    /// Nothing that a word could go on from: the start of the text, white
    /// space, punctuation, a comment.
    Break,
    /// A letter, a digit or an underscore, or the end of a literal, behind
    /// which a suffix may follow.
    Word,
    /// A byte that is not ASCII: part of a word or not.
    Unsure,
}

/// One step of the walk: whether the text is refused at this place, and
/// otherwise where the walk goes on and what it then knows.
pub struct Step {
    pub refused: bool,
    pub next: int,
    pub before: Before,
}

/// The marker of a failed expansion: `(/*ERROR*/)`.
pub open spec fn error_marker() -> Seq<u8> {
    seq![40u8, 47u8, 42u8, 69u8, 82u8, 82u8, 79u8, 82u8, 42u8, 47u8, 41u8]
}

/// Whether `byte` can stand inside an identifier or a literal's suffix, as
/// far as ASCII goes: a letter, a digit or the underscore.
pub open spec fn is_word_byte(byte: u8) -> bool {
    ||| 48 <= byte <= 57
    ||| 65 <= byte <= 90
    ||| 97 <= byte <= 122
    ||| byte == 95
}

/// What the walk knows behind `byte`.
pub open spec fn after_byte(byte: u8) -> Before {
    if is_word_byte(byte) {
        Before::Word
    } else if byte >= 128 {
        Before::Unsure
    } else {
        Before::Break
    }
}

/// `at + by`, but no further than the end of the text.
pub open spec fn ahead(bytes: Seq<u8>, at: int, by: int) -> int {
    if at + by <= bytes.len() {
        at + by
    } else {
        bytes.len() as int
    }
}

/// Whether the marker of a failed expansion stands at `at`.
pub open spec fn marker_stands(bytes: Seq<u8>, at: int) -> bool {
    &&& 0 <= at
    &&& at + MARKER_LEN <= bytes.len()
    &&& bytes.subrange(at, at + MARKER_LEN) == error_marker()
}

/// How many `#` stand in a row from `at` on.
pub open spec fn hash_run(bytes: Seq<u8>, at: int) -> int
    decreases bytes.len() - at,
{
    if 0 <= at < bytes.len() && bytes[at] == POUND {
        1 + hash_run(bytes, at + 1)
    } else {
        0
    }
}

/// Whether a raw string's opening stands at `at`, behind its `r`: any
/// number of `#`, then `"`.
pub open spec fn opens_raw(bytes: Seq<u8>, at: int) -> bool {
    &&& 0 <= at
    &&& at + hash_run(bytes, at) < bytes.len()
    &&& bytes[at + hash_run(bytes, at)] == QUOTE
}

/// Where a string whose content starts at `at` is over: behind the first
/// `"` that no backslash stands before. The end of the text, if there is
/// none.
pub open spec fn cooked_end(bytes: Seq<u8>, at: int) -> int
    decreases bytes.len() - at,
{
    if at < 0 || at >= bytes.len() {
        bytes.len() as int
    } else if bytes[at] == QUOTE {
        at + 1
    } else if bytes[at] == BACKSLASH {
        if at + 2 <= bytes.len() {
            cooked_end(bytes, at + 2)
        } else {
            bytes.len() as int
        }
    } else {
        cooked_end(bytes, at + 1)
    }
}

/// Where a raw string with `hashes` `#` whose content starts at `at` is
/// over: behind the first `"` that as many `#` follow.
pub open spec fn raw_end(bytes: Seq<u8>, at: int, hashes: int) -> int
    decreases bytes.len() - at,
{
    if at < 0 || at >= bytes.len() {
        bytes.len() as int
    } else if bytes[at] == QUOTE && hash_run(bytes, at + 1) >= hashes {
        at + 1 + hashes
    } else {
        raw_end(bytes, at + 1, hashes)
    }
}

/// Where the line that `at` stands in is over: at its line feed.
pub open spec fn line_end(bytes: Seq<u8>, at: int) -> int
    decreases bytes.len() - at,
{
    if at < 0 || at >= bytes.len() {
        bytes.len() as int
    } else if bytes[at] == NEWLINE {
        at
    } else {
        line_end(bytes, at + 1)
    }
}

/// Where a block comment is over, walked from `at` with `depth` of its
/// openings still to close. Block comments nest.
pub open spec fn block_end(bytes: Seq<u8>, at: int, depth: int) -> int
    decreases bytes.len() - at,
{
    if at < 0 || at + 1 >= bytes.len() {
        bytes.len() as int
    } else if bytes[at] == SLASH && bytes[at + 1] == STAR {
        block_end(bytes, at + 2, depth + 1)
    } else if bytes[at] == STAR && bytes[at + 1] == SLASH {
        if depth <= 1 {
            at + 2
        } else {
            block_end(bytes, at + 2, depth - 1)
        }
    } else {
        block_end(bytes, at + 1, depth)
    }
}

/// Behind the first `}` from `at` on.
pub open spec fn brace_end(bytes: Seq<u8>, at: int) -> int
    decreases bytes.len() - at,
{
    if at < 0 || at >= bytes.len() {
        bytes.len() as int
    } else if bytes[at] == BRACE_CLOSE {
        at + 1
    } else {
        brace_end(bytes, at + 1)
    }
}

/// How many bytes the character has whose first byte is `lead`.
pub open spec fn char_width(lead: u8) -> int {
    if lead < 192 {
        1
    } else if lead < 224 {
        2
    } else if lead < 240 {
        3
    } else {
        4
    }
}

/// Where the character literal that starts with the `'` at `at` is over;
/// `at` itself where none starts there, which makes the `'` the start of a
/// lifetime.
pub open spec fn char_end(bytes: Seq<u8>, at: int) -> int {
    if at + 1 >= bytes.len() {
        at
    } else if bytes[at + 1] == BACKSLASH {
        if at + 2 < bytes.len() && bytes[at + 2] == LOWER_X {
            ahead(bytes, at, 6)
        } else if at + 2 < bytes.len() && bytes[at + 2] == LOWER_U {
            ahead(bytes, brace_end(bytes, at + 3), 1)
        } else {
            ahead(bytes, at, 4)
        }
    } else if at + 1 + char_width(bytes[at + 1]) < bytes.len() && bytes[at + 1 + char_width(
        bytes[at + 1],
    )] == TICK {
        at + 2 + char_width(bytes[at + 1])
    } else {
        at
    }
}

/// Where the byte literal that starts with the `b` at `at` is over.
pub open spec fn byte_end(bytes: Seq<u8>, at: int) -> int {
    if at + 2 < bytes.len() && bytes[at + 2] == BACKSLASH {
        if at + 3 < bytes.len() && bytes[at + 3] == LOWER_X {
            ahead(bytes, at, 7)
        } else {
            ahead(bytes, at, 5)
        }
    } else {
        ahead(bytes, at, 4)
    }
}

/// Whether a C string literal starts with the `c` at `at`: `c"`, or `cr`
/// with a raw string's opening behind it.
pub open spec fn c_string_starts(bytes: Seq<u8>, at: int) -> bool {
    ||| at + 1 < bytes.len() && bytes[at + 1] == QUOTE
    ||| at + 1 < bytes.len() && bytes[at + 1] == LOWER_R && opens_raw(bytes, at + 2)
}

/// The step of one plain byte.
pub open spec fn plain_step(bytes: Seq<u8>, at: int) -> Step {
    Step { refused: false, next: at + 1, before: after_byte(bytes[at]) }
}

/// The step over a literal that is over at `end`, or the refusal of one
/// whose prefix stands behind a byte that may or may not continue a word.
pub open spec fn literal_step(before: Before, end: int) -> Step {
    Step { refused: before is Unsure, next: end, before: Before::Word }
}

/// The step at a `c`, an `r` or a `b` that does not continue a word: the
/// letter may be the prefix of a literal.
pub open spec fn prefix_step(bytes: Seq<u8>, at: int, before: Before) -> Step {
    let byte = bytes[at];
    if byte == LOWER_C && c_string_starts(bytes, at) {
        Step { refused: true, next: at + 1, before: Before::Word }
    } else if byte == LOWER_R && opens_raw(bytes, at + 1) {
        let hashes = hash_run(bytes, at + 1);
        literal_step(before, raw_end(bytes, at + 2 + hashes, hashes))
    } else if byte == LOWER_R && before is Break && at + 1 < bytes.len() && bytes[at + 1]
        == POUND {
        Step { refused: false, next: at + 2, before: Before::Word }
    } else if byte == LOWER_B && at + 1 < bytes.len() && bytes[at + 1] == QUOTE {
        literal_step(before, cooked_end(bytes, at + 2))
    } else if byte == LOWER_B && at + 1 < bytes.len() && bytes[at + 1] == TICK {
        literal_step(before, byte_end(bytes, at))
    } else if byte == LOWER_B && at + 1 < bytes.len() && bytes[at + 1] == LOWER_R && opens_raw(
        bytes,
        at + 2,
    ) {
        let hashes = hash_run(bytes, at + 2);
        literal_step(before, raw_end(bytes, at + 3 + hashes, hashes))
    } else {
        plain_step(bytes, at)
    }
}

/// The step of the walk at `at`, a place outside every comment and
/// literal.
pub open spec fn step(bytes: Seq<u8>, at: int, before: Before) -> Step {
    let byte = bytes[at];
    if byte == SLASH && at + 1 < bytes.len() && bytes[at + 1] == SLASH {
        Step { refused: false, next: line_end(bytes, at), before: Before::Break }
    } else if byte == SLASH && at + 1 < bytes.len() && bytes[at + 1] == STAR {
        Step { refused: false, next: block_end(bytes, at, 0), before: Before::Break }
    } else if byte == QUOTE {
        Step { refused: false, next: cooked_end(bytes, at + 1), before: Before::Word }
    } else if byte == TICK {
        if char_end(bytes, at) > at {
            Step { refused: false, next: char_end(bytes, at), before: Before::Word }
        } else {
            plain_step(bytes, at)
        }
    } else if byte == PAREN && marker_stands(bytes, at) {
        Step { refused: true, next: at + 1, before: Before::Break }
    } else if !(before is Word) && (byte == LOWER_C || byte == LOWER_R || byte == LOWER_B) {
        prefix_step(bytes, at, before)
    } else {
        plain_step(bytes, at)
    }
}

/// Whether the walk from `at` on meets no place at which the text is
/// refused.
pub open spec fn readable_from(bytes: Seq<u8>, at: int, before: Before) -> bool
    decreases bytes.len() - at,
{
    if at < 0 || at >= bytes.len() {
        true
    } else {
        let here = step(bytes, at, before);
        if here.refused {
            false
        } else if here.next >= bytes.len() {
            true
        } else if here.next > at {
            readable_from(bytes, here.next, here.before)
        } else {
            readable_from(bytes, at + 1, here.before)
        }
    }
}

/// Whether the parser can be handed a text of these bytes: walked from its
/// start, it holds no C string literal and no marker of a failed expansion
/// as a token.
pub open spec fn is_readable(bytes: Seq<u8>) -> bool {
    readable_from(bytes, 0, Before::Break)
}

/// Whether the text has none of the bytes that a comment, a literal or the
/// marker needs: `"`, `'`, `#`, `/` and `(`.
pub open spec fn is_plain(bytes: Seq<u8>) -> bool {
    forall|at: int|
        0 <= at < bytes.len() ==> {
            &&& #[trigger] bytes[at] != QUOTE
            &&& bytes[at] != TICK
            &&& bytes[at] != POUND
            &&& bytes[at] != SLASH
            &&& bytes[at] != PAREN
        }
}

/// A plain text is readable from every place on, whatever stands before.
proof fn lemma_plain_is_readable_from(bytes: Seq<u8>, at: int, before: Before)
    requires
        is_plain(bytes),
    ensures
        readable_from(bytes, at, before),
    decreases bytes.len() - at,
{
    if 0 <= at < bytes.len() {
        let here = step(bytes, at, before);
        assert(bytes[at] != QUOTE);
        if at + 1 < bytes.len() {
            assert(bytes[at + 1] != QUOTE);
            assert(!opens_raw(bytes, at + 1)) by {
                lemma_plain_opens_no_raw(bytes, at + 1);
            }
        }
        if at + 2 < bytes.len() {
            assert(!opens_raw(bytes, at + 2)) by {
                lemma_plain_opens_no_raw(bytes, at + 2);
            }
        }
        assert(here == plain_step(bytes, at));
        if here.next < bytes.len() {
            lemma_plain_is_readable_from(bytes, here.next, here.before);
        }
    }
}

/// In a plain text no raw string opens.
proof fn lemma_plain_opens_no_raw(bytes: Seq<u8>, at: int)
    requires
        is_plain(bytes),
    ensures
        !opens_raw(bytes, at),
{
    if opens_raw(bytes, at) {
        assert(bytes[at + hash_run(bytes, at)] == QUOTE);
    }
}

/// A plain text is readable.
pub proof fn lemma_plain_is_readable(bytes: Seq<u8>)
    requires
        is_plain(bytes),
    ensures
        is_readable(bytes),
{
    lemma_plain_is_readable_from(bytes, 0, Before::Break);
}

/// Computes `is_word_byte`.
fn word_byte(byte: u8) -> (word: bool)
    ensures
        word == is_word_byte(byte),
{
    (48 <= byte && byte <= 57) || (65 <= byte && byte <= 90) || (97 <= byte && byte <= 122)
        || byte == 95
}

/// Computes `ahead`.
fn go_ahead(bytes: &[u8], at: usize, by: usize) -> (next: usize)
    requires
        at <= bytes@.len(),
    ensures
        next == ahead(bytes@, at as int, by as int),
        at <= next <= bytes@.len(),
{
    if bytes.len() - at >= by {
        at + by
    } else {
        bytes.len()
    }
}

/// Computes `marker_stands`.
fn marker_at(bytes: &[u8], at: usize) -> (stands: bool)
    requires
        at < bytes@.len(),
    ensures
        stands == marker_stands(bytes@, at as int),
{
    if bytes.len() - at < MARKER_LEN {
        return false;
    }
    let stands = bytes[at] == 40 && bytes[at + 1] == 47 && bytes[at + 2] == 42 && bytes[at + 3]
        == 69 && bytes[at + 4] == 82 && bytes[at + 5] == 82 && bytes[at + 6] == 79 && bytes[at
        + 7] == 82 && bytes[at + 8] == 42 && bytes[at + 9] == 47 && bytes[at + 10] == 41;
    proof {
        let part = bytes@.subrange(at as int, at + MARKER_LEN);
        if stands {
            assert(part =~= error_marker());
        } else {
            assert(part[0] == bytes@[at as int]);
            assert(part[1] == bytes@[at + 1]);
            assert(part[2] == bytes@[at + 2]);
            assert(part[3] == bytes@[at + 3]);
            assert(part[4] == bytes@[at + 4]);
            assert(part[5] == bytes@[at + 5]);
            assert(part[6] == bytes@[at + 6]);
            assert(part[7] == bytes@[at + 7]);
            assert(part[8] == bytes@[at + 8]);
            assert(part[9] == bytes@[at + 9]);
            assert(part[10] == bytes@[at + 10]);
        }
    }
    stands
}

/// Computes `hash_run`.
fn count_hashes(bytes: &[u8], at: usize) -> (run: usize)
    requires
        at <= bytes@.len(),
    ensures
        run == hash_run(bytes@, at as int),
        at + run <= bytes@.len(),
{
    let len = bytes.len();
    let mut cur = at;
    while cur < len && bytes[cur] == POUND
        invariant
            at <= cur <= len,
            len == bytes@.len(),
            hash_run(bytes@, at as int) == (cur - at) + hash_run(bytes@, cur as int),
        decreases len - cur,
    {
        cur = cur + 1;
    }
    cur - at
}

/// Computes `opens_raw`, and the number of `#` in the opening.
fn raw_opening(bytes: &[u8], at: usize) -> (opening: Option<usize>)
    requires
        at <= bytes@.len(),
    ensures
        opening is Some == opens_raw(bytes@, at as int),
        opening matches Some(hashes) ==> hashes == hash_run(bytes@, at as int) && at + hashes
            < bytes@.len(),
{
    let hashes = count_hashes(bytes, at);
    if bytes.len() - at > hashes && bytes[at + hashes] == QUOTE {
        Some(hashes)
    } else {
        None
    }
}

/// Computes `cooked_end`.
fn find_cooked_end(bytes: &[u8], at: usize) -> (end: usize)
    requires
        at <= bytes@.len(),
    ensures
        end == cooked_end(bytes@, at as int),
        at <= end <= bytes@.len(),
{
    let len = bytes.len();
    let mut cur = at;
    while cur < len
        invariant
            at <= cur <= len,
            len == bytes@.len(),
            cooked_end(bytes@, at as int) == cooked_end(bytes@, cur as int),
        decreases len - cur,
    {
        if bytes[cur] == QUOTE {
            return cur + 1;
        }
        if bytes[cur] == BACKSLASH {
            cur = go_ahead(bytes, cur, 2);
        } else {
            cur = cur + 1;
        }
    }
    len
}

/// Computes `raw_end`.
fn find_raw_end(bytes: &[u8], at: usize, hashes: usize) -> (end: usize)
    requires
        at <= bytes@.len(),
    ensures
        end == raw_end(bytes@, at as int, hashes as int),
        at <= end <= bytes@.len(),
{
    let len = bytes.len();
    let mut cur = at;
    while cur < len
        invariant
            at <= cur <= len,
            len == bytes@.len(),
            raw_end(bytes@, at as int, hashes as int) == raw_end(
                bytes@,
                cur as int,
                hashes as int,
            ),
        decreases len - cur,
    {
        if bytes[cur] == QUOTE && count_hashes(bytes, cur + 1) >= hashes {
            return cur + 1 + hashes;
        }
        cur = cur + 1;
    }
    len
}

/// Computes `line_end`.
fn find_line_end(bytes: &[u8], at: usize) -> (end: usize)
    requires
        at <= bytes@.len(),
    ensures
        end == line_end(bytes@, at as int),
        at <= end <= bytes@.len(),
{
    let len = bytes.len();
    let mut cur = at;
    while cur < len && bytes[cur] != NEWLINE
        invariant
            at <= cur <= len,
            len == bytes@.len(),
            line_end(bytes@, at as int) == line_end(bytes@, cur as int),
        decreases len - cur,
    {
        cur = cur + 1;
    }
    cur
}

/// Computes `block_end` for a comment that opens at `at`.
fn find_block_end(bytes: &[u8], at: usize) -> (end: usize)
    requires
        at <= bytes@.len(),
    ensures
        end == block_end(bytes@, at as int, 0),
        at <= end <= bytes@.len(),
{
    let len = bytes.len();
    let mut cur = at;
    let mut depth: usize = 0;
    while len - cur > 1
        invariant
            at <= cur <= len,
            len == bytes@.len(),
            depth <= cur,
            block_end(bytes@, at as int, 0) == block_end(bytes@, cur as int, depth as int),
        decreases len - cur,
    {
        if bytes[cur] == SLASH && bytes[cur + 1] == STAR {
            depth = depth + 1;
            cur = cur + 2;
        } else if bytes[cur] == STAR && bytes[cur + 1] == SLASH {
            if depth <= 1 {
                return cur + 2;
            }
            depth = depth - 1;
            cur = cur + 2;
        } else {
            cur = cur + 1;
        }
    }
    len
}

/// Computes `brace_end`.
fn find_brace_end(bytes: &[u8], at: usize) -> (end: usize)
    requires
        at <= bytes@.len(),
    ensures
        end == brace_end(bytes@, at as int),
        at <= end <= bytes@.len(),
{
    let len = bytes.len();
    let mut cur = at;
    while cur < len
        invariant
            at <= cur <= len,
            len == bytes@.len(),
            brace_end(bytes@, at as int) == brace_end(bytes@, cur as int),
        decreases len - cur,
    {
        if bytes[cur] == BRACE_CLOSE {
            return cur + 1;
        }
        cur = cur + 1;
    }
    len
}

/// Computes `char_width`.
fn width_of(lead: u8) -> (width: usize)
    ensures
        width == char_width(lead),
        1 <= width <= 4,
{
    if lead < 192 {
        1
    } else if lead < 224 {
        2
    } else if lead < 240 {
        3
    } else {
        4
    }
}

/// Computes `char_end`.
fn find_char_end(bytes: &[u8], at: usize) -> (end: usize)
    requires
        at < bytes@.len(),
    ensures
        end == char_end(bytes@, at as int),
        at <= end <= bytes@.len(),
{
    let len = bytes.len();
    if len - at <= 1 {
        return at;
    }
    if bytes[at + 1] == BACKSLASH {
        if len - at > 2 && bytes[at + 2] == LOWER_X {
            return go_ahead(bytes, at, 6);
        }
        if len - at > 2 && bytes[at + 2] == LOWER_U {
            let brace = find_brace_end(bytes, at + 3);
            return go_ahead(bytes, brace, 1);
        }
        return go_ahead(bytes, at, 4);
    }
    let width = width_of(bytes[at + 1]);
    if len - at - 1 > width && bytes[at + 1 + width] == TICK {
        at + 2 + width
    } else {
        at
    }
}

/// Computes `byte_end`.
fn find_byte_end(bytes: &[u8], at: usize) -> (end: usize)
    requires
        at < bytes@.len(),
    ensures
        end == byte_end(bytes@, at as int),
        at <= end <= bytes@.len(),
{
    let len = bytes.len();
    if len - at > 2 && bytes[at + 2] == BACKSLASH {
        if len - at > 3 && bytes[at + 3] == LOWER_X {
            go_ahead(bytes, at, 7)
        } else {
            go_ahead(bytes, at, 5)
        }
    } else {
        go_ahead(bytes, at, 4)
    }
}

/// Computes `c_string_starts`.
fn c_string_at(bytes: &[u8], at: usize) -> (starts: bool)
    requires
        at < bytes@.len(),
    ensures
        starts == c_string_starts(bytes@, at as int),
{
    let len = bytes.len();
    if len - at <= 1 {
        return false;
    }
    if bytes[at + 1] == QUOTE {
        return true;
    }
    bytes[at + 1] == LOWER_R && raw_opening(bytes, at + 2).is_some()
}

/// Computes `plain_step`.
fn take_plain(bytes: &[u8], at: usize) -> (taken: (bool, usize, Before))
    requires
        at < bytes@.len(),
    ensures
        taken.0 == plain_step(bytes@, at as int).refused,
        taken.1 == plain_step(bytes@, at as int).next,
        taken.2 == plain_step(bytes@, at as int).before,
        at < taken.1 <= bytes@.len(),
{
    let byte = bytes[at];
    let before = if word_byte(byte) {
        Before::Word
    } else if byte >= 128 {
        Before::Unsure
    } else {
        Before::Break
    };
    (false, at + 1, before)
}

/// Computes `literal_step`.
fn take_literal(before: Before, end: usize) -> (taken: (bool, usize, Before))
    ensures
        taken.0 == literal_step(before, end as int).refused,
        taken.1 == literal_step(before, end as int).next,
        taken.2 == literal_step(before, end as int).before,
{
    let refused = match before {
        Before::Unsure => true,
        _ => false,
    };
    (refused, end, Before::Word)
}

/// Computes `prefix_step`.
fn take_prefix(bytes: &[u8], at: usize, before: Before) -> (taken: (bool, usize, Before))
    requires
        at < bytes@.len(),
    ensures
        taken.0 == prefix_step(bytes@, at as int, before).refused,
        taken.1 == prefix_step(bytes@, at as int, before).next,
        taken.2 == prefix_step(bytes@, at as int, before).before,
        taken.1 <= bytes@.len(),
{
    let len = bytes.len();
    let byte = bytes[at];
    if byte == LOWER_C && c_string_at(bytes, at) {
        return (true, at + 1, Before::Word);
    }
    if byte == LOWER_R {
        if let Some(hashes) = raw_opening(bytes, at + 1) {
            let end = find_raw_end(bytes, at + 2 + hashes, hashes);
            return take_literal(before, end);
        }
        let broke = match before {
            Before::Break => true,
            _ => false,
        };
        if broke && len - at > 1 && bytes[at + 1] == POUND {
            return (false, at + 2, Before::Word);
        }
    }
    if byte == LOWER_B && len - at > 1 {
        if bytes[at + 1] == QUOTE {
            let end = find_cooked_end(bytes, at + 2);
            return take_literal(before, end);
        }
        if bytes[at + 1] == TICK {
            let end = find_byte_end(bytes, at);
            return take_literal(before, end);
        }
        if bytes[at + 1] == LOWER_R {
            if let Some(hashes) = raw_opening(bytes, at + 2) {
                let end = find_raw_end(bytes, at + 3 + hashes, hashes);
                return take_literal(before, end);
            }
        }
    }
    take_plain(bytes, at)
}

/// Computes `step`.
fn take_step(bytes: &[u8], at: usize, before: Before) -> (taken: (bool, usize, Before))
    requires
        at < bytes@.len(),
    ensures
        taken.0 == step(bytes@, at as int, before).refused,
        taken.1 == step(bytes@, at as int, before).next,
        taken.2 == step(bytes@, at as int, before).before,
        taken.1 <= bytes@.len(),
{
    let len = bytes.len();
    let byte = bytes[at];
    if byte == SLASH && len - at > 1 && bytes[at + 1] == SLASH {
        return (false, find_line_end(bytes, at), Before::Break);
    }
    if byte == SLASH && len - at > 1 && bytes[at + 1] == STAR {
        return (false, find_block_end(bytes, at), Before::Break);
    }
    if byte == QUOTE {
        return (false, find_cooked_end(bytes, at + 1), Before::Word);
    }
    if byte == TICK {
        let end = find_char_end(bytes, at);
        if end > at {
            return (false, end, Before::Word);
        }
        return take_plain(bytes, at);
    }
    if byte == PAREN && marker_at(bytes, at) {
        return (true, at + 1, Before::Break);
    }
    let in_word = match before {
        Before::Word => true,
        _ => false,
    };
    if !in_word && (byte == LOWER_C || byte == LOWER_R || byte == LOWER_B) {
        return take_prefix(bytes, at, before);
    }
    take_plain(bytes, at)
}

/// Tests whether the parser can be handed `source`.
pub fn can_read(source: &str) -> (readable: bool)
    ensures
        readable == is_readable(source.spec_bytes()),
{
    let bytes = source.as_bytes();
    let len = bytes.len();
    let mut at: usize = 0;
    let mut before = Before::Break;
    while at < len
        invariant
            at <= len,
            len == bytes@.len(),
            bytes@ == source.spec_bytes(),
            is_readable(bytes@) == readable_from(bytes@, at as int, before),
        decreases len - at,
    {
        let (refused, next, then) = take_step(bytes, at, before);
        if refused {
            return false;
        }
        before = then;
        if next > at {
            at = next;
        } else {
            at = at + 1;
        }
    }
    true
}

} // verus!
