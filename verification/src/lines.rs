use crate::diagnostic::{span_fits, span_in_text};
use crate::parse::{lemma_line_starts_rise, line_starts, line_starts_of};
use crate::syntax::Span;
use vstd::prelude::*;
use vstd::string::StringSliceAdditionalSpecFns;
use vstd::utf8::{
    decode_utf8, encode_utf8, encode_utf8_decode_utf8, encode_utf8_valid_utf8, is_char_boundary,
    is_char_boundary_iff_not_is_continuation_byte, is_char_boundary_start_end_of_seq,
    valid_utf8_split,
};

verus! {

/// How many of the first `n` line starts lie at or before `offset`.
pub open spec fn starts_upto(starts: Seq<usize>, offset: usize, n: nat) -> nat
    decreases n,
{
    if n == 0 || n > starts.len() {
        0
    } else {
        starts_upto(starts, offset, (n - 1) as nat) + if starts[n - 1] <= offset {
            1nat
        } else {
            0nat
        }
    }
}

/// The number of the line that holds the byte at `offset`, counted from one: the number
/// of lines that begin at or before it.
pub open spec fn line_at(starts: Seq<usize>, offset: usize) -> nat {
    starts_upto(starts, offset, starts.len())
}

/// Whether the line starts rise from one to the next.
pub open spec fn rising(starts: Seq<usize>) -> bool {
    forall|i: int, j: int| 0 <= i < j < starts.len() ==> starts[i] < starts[j]
}

/// Where the first `k` starts lie at or before `offset` and the others of the first `n`
/// lie after it, `k` is the count.
proof fn lemma_starts_upto_split(starts: Seq<usize>, offset: usize, k: nat, n: nat)
    requires
        k <= n <= starts.len(),
        forall|i: int| 0 <= i < k ==> starts[i] <= offset,
        forall|i: int| k <= i < n ==> starts[i] > offset,
    ensures
        starts_upto(starts, offset, n) == k,
    decreases n,
{
    if n > 0 {
        if k == n {
            lemma_starts_upto_split(starts, offset, (k - 1) as nat, (n - 1) as nat);
        } else {
            lemma_starts_upto_split(starts, offset, k, (n - 1) as nat);
        }
    }
}

/// A later offset never lies on an earlier line.
pub proof fn lemma_line_at_monotone(starts: Seq<usize>, a: usize, b: usize)
    requires
        a <= b,
    ensures
        line_at(starts, a) <= line_at(starts, b),
{
    lemma_starts_upto_monotone(starts, a, b, starts.len());
}

proof fn lemma_starts_upto_monotone(starts: Seq<usize>, a: usize, b: usize, n: nat)
    requires
        a <= b,
    ensures
        starts_upto(starts, a, n) <= starts_upto(starts, b, n),
    decreases n,
{
    if n > 0 && n <= starts.len() {
        lemma_starts_upto_monotone(starts, a, b, (n - 1) as nat);
    }
}

/// The number of the line that holds the byte at `offset`, found by halving.
fn line_number(starts: &Vec<usize>, offset: usize) -> (line: usize)
    requires
        rising(starts@),
    ensures
        line == line_at(starts@, offset),
{
    let mut low: usize = 0;
    let mut high: usize = starts.len();
    while low < high
        invariant
            low <= high <= starts.len(),
            rising(starts@),
            forall|i: int| 0 <= i < low ==> starts[i] <= offset,
            forall|i: int| high <= i < starts.len() ==> starts[i] > offset,
        decreases high - low,
    {
        let mid: usize = low + (high - low) / 2;
        if starts[mid] <= offset {
            low = mid + 1;
        } else {
            high = mid;
        }
    }
    proof {
        lemma_starts_upto_split(starts@, offset, low as nat, starts@.len());
    }
    low
}

/// Line starts of which each is below the next rise from any one to any later one.
proof fn lemma_rising_by_neighbours(starts: Seq<usize>)
    requires
        forall|k: int| 0 < k < starts.len() ==> starts[k - 1] < #[trigger] starts[k],
    ensures
        rising(starts),
{
    assert forall|i: int, j: int| 0 <= i < j < starts.len() implies starts[i] < starts[j] by {
        lemma_rising_between(starts, i, j);
    }
}

proof fn lemma_rising_between(starts: Seq<usize>, i: int, j: int)
    requires
        forall|k: int| 0 < k < starts.len() ==> starts[k - 1] < #[trigger] starts[k],
        0 <= i < j < starts.len(),
    ensures
        starts[i] < starts[j],
    decreases j - i,
{
    if i + 1 < j {
        lemma_rising_between(starts, i, j - 1);
    }
    assert(starts[j - 1] < starts[j]);
}

/// The offsets at which the lines of one source text begin.
#[derive(Debug)]
pub struct LineTable {
    starts: Vec<usize>,
}

impl View for LineTable {
    type V = Seq<usize>;

    closed spec fn view(&self) -> Seq<usize> {
        self.starts@
    }
}

impl LineTable {
    #[verifier::type_invariant]
    spec fn starts_rise(self) -> bool {
        rising(self.starts@)
    }

    /// The line starts of `source`. A source of more than `u32::MAX` bytes has none.
    pub fn of(source: &str) -> (table: Option<LineTable>)
        ensures
            match table {
                Some(t) => encode_utf8(source@).len() <= u32::MAX && t@ == line_starts_of(
                    source@,
                ),
                None => encode_utf8(source@).len() > u32::MAX,
            },
    {
        if source.as_bytes().len() > u32::MAX as usize {
            return None;
        }
        let starts = line_starts(source);
        proof {
            lemma_line_starts_rise(encode_utf8(source@), encode_utf8(source@).len());
        }
        Some(LineTable { starts })
    }

    /// A table of the line starts given, where they rise from one to the next.
    pub fn new(starts: Vec<usize>) -> (table: Option<LineTable>)
        ensures
            match table {
                Some(t) => rising(starts@) && t@ == starts@,
                None => !rising(starts@),
            },
    {
        let mut i: usize = 1;
        while i < starts.len()
            invariant
                1 <= i,
                forall|k: int| 0 < k < i && k < starts.len() ==> starts[k - 1] < #[trigger] starts[k],
            decreases starts.len() - i,
        {
            if starts[i - 1] >= starts[i] {
                return None;
            }
            i += 1;
        }
        proof {
            lemma_rising_by_neighbours(starts@);
        }
        Some(LineTable { starts })
    }

    /// The number of the line that holds the byte at `offset`, counted from one.
    pub fn line_of(&self, offset: usize) -> (line: usize)
        ensures
            line == line_at(self@, offset),
    {
        proof {
            use_type_invariant(self);
        }
        line_number(&self.starts, offset)
    }
}

/// The text that stands between the two ends of `span` in `source`. A span that does
/// not lie inside the source between two characters holds no text.
pub open spec fn text_at(source: Seq<char>, span: Span) -> Seq<char> {
    if span.start <= span.end && span_in_text(
        source,
        span.start as nat,
        (span.end - span.start) as nat,
    ) {
        decode_utf8(encode_utf8(source).subrange(span.start as int, span.end as int))
    } else {
        Seq::empty()
    }
}

/// A character boundary of a text is one of each prefix that reaches it.
proof fn lemma_boundary_in_prefix(bytes: Seq<u8>, start: int, end: int)
    requires
        vstd::utf8::valid_utf8(bytes),
        0 <= start <= end <= bytes.len(),
        is_char_boundary(bytes, start),
        is_char_boundary(bytes, end),
    ensures
        vstd::utf8::valid_utf8(bytes.subrange(0, end)),
        is_char_boundary(bytes.subrange(0, end), start),
{
    valid_utf8_split(bytes, end);
    let prefix = bytes.subrange(0, end);
    if start == end {
        is_char_boundary_start_end_of_seq(prefix);
    } else {
        is_char_boundary_iff_not_is_continuation_byte(bytes, start);
        is_char_boundary_iff_not_is_continuation_byte(prefix, start);
    }
}

/// The text of `source` between the two ends of `span`.
pub fn src_text(source: &str, span: Span) -> (text: String)
    ensures
        text@ == text_at(source@, span),
{
    if span.start > span.end || !span_fits(source, span.start, span.end - span.start) {
        return String::new();
    }
    proof {
        encode_utf8_valid_utf8(source@);
        lemma_boundary_in_prefix(encode_utf8(source@), span.start as int, span.end as int);
    }
    let (head, _) = source.split_at(span.end);
    let (_, piece) = head.split_at(span.start);
    proof {
        encode_utf8_decode_utf8(piece@);
        assert(piece.spec_bytes() =~= encode_utf8(source@).subrange(
            span.start as int,
            span.end as int,
        ));
    }
    piece.to_owned()
}

} // verus!
