//! The command-line options and how the resolution option is read.
use vstd::prelude::*;

use crate::text::{chars_of, decimal, is_ascii_digit, parse_unsigned, parse_unsigned_range};

verus! {

/// The options the recorder is started with.
#[derive(Debug, Clone, PartialEq, Eq)]
pub struct Args {
    /// Window title filter.
    pub target: Option<String>,
    /// Auto-stop recording after N seconds.
    pub duration: Option<u32>,
    /// Output file path.
    pub output: Option<String>,
    /// Frame rate.
    pub fps: u32,
    /// Target resolution, `WIDTHxHEIGHT`.
    pub resolution: String,
    /// List available windows and exit.
    pub list: bool,
    /// Verbose output.
    pub verbose: bool,
}

/// The positions of the letter `x` in `s`, in increasing order.
pub open spec fn x_positions(s: Seq<char>) -> Seq<int>
    decreases s.len(),
{
    if s.len() == 0 {
        seq![]
    } else {
        let p = x_positions(s.drop_last());
        if s.last() == 'x' {
            p.push(s.len() - 1)
        } else {
            p
        }
    }
}

/// `t` read as a `u32`, or `default` when it is not one.
pub open spec fn u32_or(t: Seq<char>, default: u32) -> u32 {
    match parse_unsigned(t, u32::MAX as nat) {
        Some(v) => v as u32,
        None => default,
    }
}

/// The resolution that the text `s` asks for: split at `x`, it must have
/// exactly two parts, else 1280x720; a part that is not a `u32` falls back to
/// 1280 (width) or 720 (height).
pub open spec fn resolution_of(s: Seq<char>) -> (u32, u32) {
    let p = x_positions(s);
    if p.len() == 1 {
        (u32_or(s.take(p[0]), 1280), u32_or(s.skip(p[0] + 1), 720))
    } else {
        (1280, 720)
    }
}

proof fn lemma_x_positions_bounds(s: Seq<char>)
    ensures
        forall|j: int|
            0 <= j < x_positions(s).len() ==> 0 <= #[trigger] x_positions(s)[j] < s.len() && s[x_positions(s)[j]]
                == 'x',
    decreases s.len(),
{
    if s.len() > 0 {
        let t = s.drop_last();
        lemma_x_positions_bounds(t);
        let p = x_positions(t);
        assert forall|j: int| 0 <= j < x_positions(s).len() implies 0 <= #[trigger] x_positions(
            s,
        )[j] < s.len() && s[x_positions(s)[j]] == 'x' by {
            if j < p.len() {
                assert(x_positions(s)[j] == p[j]);
                assert(t[p[j]] == s[p[j]]);
            }
        }
    }
}

proof fn lemma_x_positions_free(u: Seq<char>, v: Seq<char>)
    requires
        forall|i: int| 0 <= i < v.len() ==> #[trigger] v[i] != 'x',
    ensures
        x_positions(u + v) == x_positions(u),
    decreases v.len(),
{
    if v.len() == 0 {
        assert(u + v =~= u);
    } else {
        let w = v.drop_last();
        assert forall|i: int| 0 <= i < w.len() implies #[trigger] w[i] != 'x' by {
            assert(w[i] == v[i]);
        }
        lemma_x_positions_free(u, w);
        assert((u + v).drop_last() =~= u + w);
        assert((u + v).last() == v[v.len() - 1]);
    }
}

proof fn lemma_digits_have_no_x(n: nat)
    ensures
        forall|i: int| 0 <= i < decimal(n).len() ==> #[trigger] decimal(n)[i] != 'x',
{
    crate::text::lemma_decimal(n);
    assert forall|i: int| 0 <= i < decimal(n).len() implies #[trigger] decimal(n)[i] != 'x' by {
        assert(is_ascii_digit(decimal(n)[i]));
    }
}

/// Writing a resolution as `WIDTHxHEIGHT` and reading it back gives the same
/// width and height.
pub proof fn law_resolution_round_trip(w: u32, h: u32)
    ensures
        resolution_of(decimal(w as nat) + seq!['x'] + decimal(h as nat)) == (w, h),
{
    let a = decimal(w as nat);
    let b = decimal(h as nat);
    let s = a + seq!['x'] + b;
    lemma_digits_have_no_x(w as nat);
    lemma_digits_have_no_x(h as nat);
    lemma_x_positions_free(Seq::<char>::empty(), a);
    assert(Seq::<char>::empty() + a =~= a);
    assert(x_positions(Seq::<char>::empty()) == Seq::<int>::empty());
    let ax = a + seq!['x'];
    assert(ax.drop_last() =~= a);
    assert(x_positions(ax) == seq![a.len() as int]);
    lemma_x_positions_free(ax, b);
    assert(s.take(a.len() as int) =~= a);
    assert(s.skip(a.len() + 1int) =~= b);
    crate::text::lemma_parse_decimal(w as nat, u32::MAX as nat);
    crate::text::lemma_parse_decimal(h as nat, u32::MAX as nat);
}

impl Args {
    /// The target resolution as `(width, height)`: the option split at `x`
    /// into exactly two numbers; otherwise 1280x720, and a part that is not a
    /// number falls back to 1280 or 720.
    pub fn resolution_tuple(&self) -> (r: (u32, u32))
        ensures
            r == resolution_of(self.resolution@),
    {
        let chars = chars_of(self.resolution.as_str());
        let n = chars.len();
        let mut count: usize = 0;
        let mut first: usize = 0;
        let mut i: usize = 0;
        while i < n
            invariant
                i <= n == chars@.len(),
                count as nat == x_positions(chars@.take(i as int)).len(),
                count <= i,
                count >= 1 ==> first as int == x_positions(chars@.take(i as int))[0],
            decreases n - i,
        {
            let ghost before = chars@.take(i as int);
            assert(chars@.take(i + 1).drop_last() =~= before);
            if chars[i] == 'x' {
                if count == 0 {
                    first = i;
                }
                count = count + 1;
            }
            i = i + 1;
        }
        assert(chars@.take(n as int) =~= chars@);
        if count != 1 {
            return (1280, 720);
        }
        proof {
            lemma_x_positions_bounds(chars@);
        }
        let w = match parse_unsigned_range(&chars, 0, first, u32::MAX as u64) {
            Some(v) => v as u32,
            None => 1280,
        };
        let h = match parse_unsigned_range(&chars, first + 1, n, u32::MAX as u64) {
            Some(v) => v as u32,
            None => 720,
        };
        assert(chars@.subrange(0, first as int) =~= chars@.take(first as int));
        assert(chars@.subrange(first + 1, n as int) =~= chars@.skip(first + 1));
        (w, h)
    }
}

} // verus!
