//! Text helpers: comparison, decimal rendering and the ordering of keys.

use vstd::prelude::*;
use vstd::string::*;

verus! {

/// The characters of a key or a name.
pub type Text = Seq<char>;

/// Whether two strings hold the same characters.
pub fn same_text(a: &str, b: &str) -> (r: bool)
    ensures
        r == (a@ == b@),
{
    a.to_owned() == b.to_owned()
}

/// The characters of an optional string.
pub open spec fn opt_text(s: Option<String>) -> Option<Text> {
    match s {
        Some(t) => Some(t@),
        None => None,
    }
}

/// The characters of an optional string slice.
pub open spec fn opt_str(s: Option<&str>) -> Option<Text> {
    match s {
        Some(t) => Some(t@),
        None => None,
    }
}

/// The texts held by a sequence of strings.
pub open spec fn texts(s: Seq<String>) -> Seq<Text> {
    s.map_values(|t: String| t@)
}

/// The views of the items of a sequence.
pub open spec fn views<T: View>(s: Seq<T>) -> Seq<T::V> {
    s.map_values(|x: T| x@)
}

/// The view of an optional value.
pub open spec fn opt_view<T: View>(x: Option<T>) -> Option<T::V> {
    match x {
        Some(v) => Some(v@),
        None => None,
    }
}

/// The views of a sequence grow and join with it.
pub proof fn lemma_views<T: View>(a: Seq<T>, b: Seq<T>)
    ensures
        views(a + b) == views(a) + views(b),
        forall|x: T| #[trigger] views(a.push(x)) == views(a).push(x@),
        views(Seq::<T>::empty()) == Seq::<T::V>::empty(),
{
    assert(views(a + b) =~= views(a) + views(b));
    assert forall|x: T| #[trigger] views(a.push(x)) == views(a).push(x@) by {
        assert(views(a.push(x)) =~= views(a).push(x@));
    }
    assert(views(Seq::<T>::empty()) =~= Seq::<T::V>::empty());
}

/// Borrows an optional string as an optional slice.
pub fn borrow_text<'a>(s: &'a Option<String>) -> (r: Option<&'a str>)
    ensures
        opt_str(r) == opt_text(*s),
{
    match s {
        Some(t) => Some(t.as_str()),
        None => None,
    }
}

/// Copies an optional slice into an owned optional string.
pub fn own_text(s: Option<&str>) -> (r: Option<String>)
    ensures
        opt_text(r) == opt_str(s),
{
    match s {
        Some(t) => Some(t.to_owned()),
        None => None,
    }
}

/// Clones an optional string.
pub fn clone_text(s: &Option<String>) -> (r: Option<String>)
    ensures
        r == *s,
{
    match s {
        Some(t) => Some(t.clone()),
        None => None,
    }
}

/// The character of a decimal digit.
pub open spec fn digit_char(d: int) -> char {
    (48 + d) as char
}

/// The decimal digits of `n`, most significant first.
pub open spec fn decimal(n: nat) -> Text
    decreases n,
{
    if n < 10 {
        seq![digit_char(n as int)]
    } else {
        decimal(n / 10).push(digit_char((n % 10) as int))
    }
}

/// The decimal digits of `n`, padded on the left with zeros to `width` digits.
pub open spec fn padded_decimal(n: nat, width: nat) -> Text {
    let digits = decimal(n);
    if digits.len() < width {
        Seq::new((width - digits.len()) as nat, |i: int| '0') + digits
    } else {
        digits
    }
}

fn digit(d: u64) -> (r: &'static str)
    requires
        d < 10,
    ensures
        r@ == seq![digit_char(d as int)],
{
    proof {
        reveal_strlit("0");
        reveal_strlit("1");
        reveal_strlit("2");
        reveal_strlit("3");
        reveal_strlit("4");
        reveal_strlit("5");
        reveal_strlit("6");
        reveal_strlit("7");
        reveal_strlit("8");
        reveal_strlit("9");
    }
    if d == 0 {
        "0"
    } else if d == 1 {
        "1"
    } else if d == 2 {
        "2"
    } else if d == 3 {
        "3"
    } else if d == 4 {
        "4"
    } else if d == 5 {
        "5"
    } else if d == 6 {
        "6"
    } else if d == 7 {
        "7"
    } else if d == 8 {
        "8"
    } else {
        "9"
    }
}

/// Renders `n` in decimal.
pub fn to_decimal(n: u64) -> (r: String)
    ensures
        r@ == decimal(n as nat),
    decreases n,
{
    if n < 10 {
        digit(n).to_owned()
    } else {
        let mut s = to_decimal(n / 10);
        s.append(digit(n % 10));
        s
    }
}

/// Renders `n` in decimal with at least `width` digits.
pub fn to_padded_decimal(n: u64, width: usize) -> (r: String)
    ensures
        r@ == padded_decimal(n as nat, width as nat),
{
    let digits = to_decimal(n);
    let len: usize = digits.as_str().unicode_len();
    let mut out = String::new();
    let mut filled: usize = len;
    while filled < width
        invariant
            len == decimal(n as nat).len(),
            len <= filled,
            filled <= width || filled == len,
            out@ == Seq::new((filled - len) as nat, |i: int| '0'),
        decreases width - filled,
    {
        proof {
            reveal_strlit("0");
        }
        out.append("0");
        filled = filled + 1;
        assert(out@ =~= Seq::new((filled - len) as nat, |i: int| '0'));
    }
    out.append(digits.as_str());
    proof {
        assert(out@ =~= padded_decimal(n as nat, width as nat));
    }
    out
}

/// Concatenates two strings.
pub fn join2(a: &str, b: &str) -> (r: String)
    ensures
        r@ == a@ + b@,
{
    let mut s = a.to_owned();
    s.append(b);
    s
}

/// Concatenates three strings.
pub fn join3(a: &str, b: &str, c: &str) -> (r: String)
    ensures
        r@ == a@ + b@ + c@,
{
    let mut s = a.to_owned();
    s.append(b);
    s.append(c);
    s
}

/// Concatenates four strings.
pub fn join4(a: &str, b: &str, c: &str, d: &str) -> (r: String)
    ensures
        r@ == a@ + b@ + c@ + d@,
{
    let mut s = a.to_owned();
    s.append(b);
    s.append(c);
    s.append(d);
    s
}

/// Concatenates five strings.
pub fn join5(a: &str, b: &str, c: &str, d: &str, e: &str) -> (r: String)
    ensures
        r@ == a@ + b@ + c@ + d@ + e@,
{
    let mut s = a.to_owned();
    s.append(b);
    s.append(c);
    s.append(d);
    s.append(e);
    s
}

/// Whether `part` occurs in `text`.
pub open spec fn holds_text(text: Text, part: Text) -> bool {
    exists|i: int|
        0 <= i && i + part.len() <= text.len() && #[trigger] text.subrange(i, i + part.len())
            == part
}

/// Whether `part` occurs in `text`.
pub fn contains_text(text: &str, part: &str) -> (r: bool)
    ensures
        r == holds_text(text@, part@),
{
    let len: usize = text.unicode_len();
    let width: usize = part.unicode_len();
    if width > len {
        return false;
    }
    let mut i: usize = 0;
    while i <= len - width
        invariant
            len == text@.len(),
            width == part@.len(),
            width <= len,
            i <= len - width + 1,
            forall|j: int|
                0 <= j < i ==> #[trigger] text@.subrange(j, j + part@.len()) != part@,
        decreases len - width + 1 - i,
    {
        if same_text(text.substring_char(i, i + width), part) {
            assert(text@.subrange(i as int, i + part@.len()) == part@);
            return true;
        }
        if i == len - width {
            return false;
        }
        i = i + 1;
    }
    false
}

/// Whether `a` comes before `b`, or equals it, in the order of their characters.
pub open spec fn text_le(a: Text, b: Text) -> bool
    decreases a.len(),
{
    if a.len() == 0 {
        true
    } else if b.len() == 0 {
        false
    } else if a[0] == b[0] {
        text_le(a.drop_first(), b.drop_first())
    } else {
        (a[0] as int) < (b[0] as int)
    }
}

/// Whether each text of the sequence comes before the ones that follow it.
pub open spec fn ascending(s: Seq<Text>) -> bool {
    forall|i: int, j: int| 0 <= i < j < s.len() ==> text_le(#[trigger] s[i], #[trigger] s[j])
}

/// Of two texts that are the same up to a place, the one with the smaller character there comes
/// first.
pub proof fn lemma_text_order(a: Text, b: Text, k: int)
    requires
        0 <= k < a.len(),
        k < b.len(),
        a.take(k) == b.take(k),
        (a[k] as int) < (b[k] as int),
    ensures
        text_le(a, b),
        !text_le(b, a),
    decreases k,
{
    if k > 0 {
        assert(a[0] == a.take(k)[0]);
        assert(b[0] == b.take(k)[0]);
        let ra = a.drop_first();
        let rb = b.drop_first();
        assert(ra.take(k - 1) =~= a.take(k).drop_first());
        assert(rb.take(k - 1) =~= b.take(k).drop_first());
        lemma_text_order(ra, rb, k - 1);
    }
}

/// The decimal digits of a number are digits, and there is at least one.
pub proof fn lemma_decimal_digits(n: nat)
    ensures
        decimal(n).len() > 0,
        forall|i: int| 0 <= i < decimal(n).len() ==> #[trigger] decimal(n)[i] != ':',
        n < 10 <==> decimal(n).len() == 1,
    decreases n,
{
    if n >= 10 {
        lemma_decimal_digits(n / 10);
    }
}

/// Different numbers have different digits.
pub proof fn lemma_decimal_injective(a: nat, b: nat)
    requires
        decimal(a) == decimal(b),
    ensures
        a == b,
    decreases a,
{
    lemma_decimal_digits(a);
    lemma_decimal_digits(b);
    if a >= 10 {
        let da = decimal(a);
        let db = decimal(b);
        assert(da.drop_last() =~= decimal(a / 10));
        assert(db.drop_last() =~= decimal(b / 10));
        lemma_decimal_injective(a / 10, b / 10);
        assert(da.last() == digit_char((a % 10) as int));
        assert(db.last() == digit_char((b % 10) as int));
    } else {
        assert(decimal(a)[0] == digit_char(a as int));
        assert(decimal(b)[0] == digit_char(b as int));
    }
}

/// The last `width` decimal digits of a number, zeros among them.
spec fn fixed(n: nat, width: nat) -> Text
    decreases width,
{
    if width == 0 {
        Seq::empty()
    } else {
        fixed(n / 10, (width - 1) as nat).push(digit_char((n % 10) as int))
    }
}

proof fn lemma_fixed_len(n: nat, width: nat)
    ensures
        fixed(n, width).len() == width,
    decreases width,
{
    if width > 0 {
        lemma_fixed_len(n / 10, (width - 1) as nat);
    }
}

proof fn lemma_fixed_zero(width: nat)
    ensures
        fixed(0, width) == Seq::new(width, |i: int| '0'),
    decreases width,
{
    if width > 0 {
        lemma_fixed_zero((width - 1) as nat);
        assert(fixed(0, width) =~= Seq::new(width, |i: int| '0'));
    } else {
        assert(fixed(0, width) =~= Seq::new(width, |i: int| '0'));
    }
}

/// Ten to a power.
spec fn bound(width: nat) -> nat
    decreases width,
{
    if width == 0 {
        1
    } else {
        10 * bound((width - 1) as nat)
    }
}

proof fn lemma_padded_is_fixed(n: nat, width: nat)
    requires
        n < bound(width),
        width > 0,
    ensures
        padded_decimal(n, width) == fixed(n, width),
    decreases width,
{
    lemma_decimal_digits(n);
    let w = (width - 1) as nat;
    if n < 10 {
        lemma_fixed_zero(w);
        assert(n / 10 == 0);
        assert(decimal(n) =~= seq![digit_char(n as int)]);
        assert(padded_decimal(n, width) =~= Seq::new(w, |i: int| '0').push(digit_char(n as int)));
    } else {
        assert(bound(width) == 10 * bound(w));
        assert(n / 10 < bound(w));
        assert(w > 0) by {
            if w == 0 {
                assert(bound(w) == 1);
            }
        }
        lemma_padded_is_fixed(n / 10, w);
        assert(padded_decimal(n, width) =~= padded_decimal(n / 10, w).push(
            digit_char((n % 10) as int),
        ));
    }
}

proof fn lemma_fixed_order(a: nat, b: nat, width: nat) -> (k: int)
    requires
        a < b < bound(width),
    ensures
        0 <= k < width,
        fixed(a, width).take(k) == fixed(b, width).take(k),
        (fixed(a, width)[k] as int) < (fixed(b, width)[k] as int),
    decreases width,
{
    if width == 0 {
        assert(false);
        0
    } else {
        let w = (width - 1) as nat;
        let fa = fixed(a / 10, w);
        let fb = fixed(b / 10, w);
        lemma_fixed_len(a / 10, w);
        lemma_fixed_len(b / 10, w);
        if a / 10 < b / 10 {
            assert(bound(width) == 10 * bound(w));
            let k = lemma_fixed_order(a / 10, b / 10, w);
            assert(fixed(a, width).take(k) =~= fa.take(k));
            assert(fixed(b, width).take(k) =~= fb.take(k));
            k
        } else {
            assert(a / 10 == b / 10);
            assert(a % 10 < b % 10);
            assert(fixed(a, width).take(w as int) =~= fa);
            assert(fixed(b, width).take(w as int) =~= fb);
            w as int
        }
    }
}

proof fn lemma_bound_six()
    ensures
        bound(6) == 1000000,
{
    reveal_with_fuel(bound, 7);
}

/// A number below a million has six digits, zeros among them.
pub proof fn lemma_padded(n: nat)
    requires
        n < 1000000,
    ensures
        padded_decimal(n, 6).len() == 6,
{
    lemma_bound_six();
    lemma_padded_is_fixed(n, 6);
    lemma_fixed_len(n, 6);
}

/// Of two numbers below a million, written with six digits, the smaller one has the smaller digit
/// at the first place at which they differ.
pub proof fn lemma_padded_order(a: nat, b: nat) -> (k: int)
    requires
        a < b < 1000000,
    ensures
        0 <= k < 6,
        padded_decimal(a, 6).len() == 6,
        padded_decimal(b, 6).len() == 6,
        padded_decimal(a, 6).take(k) == padded_decimal(b, 6).take(k),
        (padded_decimal(a, 6)[k] as int) < (padded_decimal(b, 6)[k] as int),
{
    lemma_bound_six();
    lemma_padded(a);
    lemma_padded(b);
    lemma_padded_is_fixed(a, 6);
    lemma_padded_is_fixed(b, 6);
    lemma_fixed_order(a, b, 6)
}

/// `itertools::Itertools::sorted` on strings: the same strings, each as often as before, in
/// ascending order. A string's order is that of its bytes, which for UTF-8 is the order of its
/// characters.
#[verifier::external_body]
pub(crate) fn sorted_texts(keys: Vec<String>) -> (r: Vec<String>)
    ensures
        ascending(texts(r@)),
        texts(r@).to_multiset() == texts(keys@).to_multiset(),
{
    itertools::Itertools::sorted(keys.into_iter()).collect()
}

} // verus!
