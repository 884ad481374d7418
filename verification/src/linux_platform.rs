//! The parsing and arithmetic behind the Linux topology, process and image
//! providers: procfs/sysfs text, cgroup files and paths, CPU lists, ELF program
//! headers and notes. Reading the files is the caller's; everything decided from
//! their bytes is here.
use vstd::prelude::*;
use crate::elf::ProgramHeader;
use crate::image::UnwindInfo;

verus! {

/// Whether `b` is ASCII whitespace: space, tab, line feed, form feed or carriage return.
pub open spec fn is_space(b: u8) -> bool {
    b == 32 || b == 9 || b == 10 || b == 12 || b == 13
}

pub fn space(b: u8) -> (r: bool)
    ensures r == is_space(b),
{
    b == 32 || b == 9 || b == 10 || b == 12 || b == 13
}

/// `s` without its leading whitespace.
pub open spec fn trim_start(s: Seq<u8>) -> Seq<u8>
    decreases s.len(),
{
    if s.len() > 0 && is_space(s[0]) { trim_start(s.drop_first()) } else { s }
}

/// `s` without its trailing whitespace.
pub open spec fn trim_end(s: Seq<u8>) -> Seq<u8>
    decreases s.len(),
{
    if s.len() > 0 && is_space(s.last()) { trim_end(s.drop_last()) } else { s }
}

/// `s` without leading and trailing whitespace.
pub open spec fn trimmed(s: Seq<u8>) -> Seq<u8> {
    trim_end(trim_start(s))
}

/// The bounds of `bytes` without leading and trailing whitespace.
pub fn trim(bytes: &[u8]) -> (r: (usize, usize))
    ensures
        r.0 <= r.1 <= bytes@.len(),
        bytes@.subrange(r.0 as int, r.1 as int) == trimmed(bytes@),
{
    let len: usize = bytes.len();
    let mut i: usize = 0;
    assert(bytes@.subrange(0, len as int) == bytes@);
    while i < len && space(bytes[i])
        invariant
            i <= len == bytes@.len(),
            trim_start(bytes@) == trim_start(bytes@.subrange(i as int, len as int)),
        decreases len - i,
    {
        assert(bytes@.subrange(i as int, len as int).drop_first() == bytes@.subrange(i as int + 1, len as int));
        i = i + 1;
    }
    assert(trim_start(bytes@) == bytes@.subrange(i as int, len as int));
    let mut j: usize = len;
    while j > i && space(bytes[j - 1])
        invariant
            i <= j <= len == bytes@.len(),
            trim_start(bytes@) == bytes@.subrange(i as int, len as int),
            trimmed(bytes@) == trim_end(bytes@.subrange(i as int, j as int)),
        decreases j,
    {
        assert(bytes@.subrange(i as int, j as int).drop_last() == bytes@.subrange(i as int, j as int - 1));
        j = j - 1;
    }
    (i, j)
}

/// Whether `b` is an ASCII digit.
pub open spec fn is_digit(b: u8) -> bool {
    48 <= b <= 57
}

/// The number of leading ASCII digits of `s`.
pub open spec fn leading_digits(s: Seq<u8>) -> nat
    decreases s.len(),
{
    if s.len() > 0 && is_digit(s[0]) { 1 + leading_digits(s.drop_first()) } else { 0 }
}

/// The value of a string of decimal digits.
pub open spec fn decimal(s: Seq<u8>) -> nat
    decreases s.len(),
{
    if s.len() == 0 { 0 } else { decimal(s.drop_last()) * 10 + (s.last() - 48) as nat }
}

/// A longer prefix of digits has a value at least as large.
pub proof fn lemma_decimal_monotone(s: Seq<u8>, k: int, n: int)
    requires
        0 <= k <= n <= s.len(),
        forall|i: int| 0 <= i < n ==> is_digit(#[trigger] s[i]),
    ensures
        decimal(s.take(k)) <= decimal(s.take(n)),
    decreases n - k,
{
    if k < n {
        lemma_decimal_monotone(s, k, n - 1);
        assert(s.take(n).drop_last() == s.take(n - 1));
    }
}

/// The leading digits of `s` are the digits before the first other byte.
proof fn lemma_leading_digits(s: Seq<u8>)
    ensures
        leading_digits(s) <= s.len(),
        forall|i: int| 0 <= i < leading_digits(s) ==> is_digit(#[trigger] s[i]),
        leading_digits(s) < s.len() ==> !is_digit(s[leading_digits(s) as int]),
    decreases s.len(),
{
    if s.len() > 0 && is_digit(s[0]) {
        lemma_leading_digits(s.drop_first());
        assert forall|i: int| 0 <= i < leading_digits(s) implies is_digit(#[trigger] s[i]) by {
            if i > 0 {
                assert(s[i] == s.drop_first()[i - 1]);
            }
        }
    }
}

/// What a decimal prefix parse of `s` gives: the value of the leading digits after
/// trimming, and how many digits there were; `None` without digits or past `u64::MAX`.
pub open spec fn parse_u64_spec(s: Seq<u8>) -> Option<(u64, nat)> {
    let t = trimmed(s);
    let d = leading_digits(t);
    if d == 0 || decimal(t.take(d as int)) > u64::MAX {
        None
    } else {
        Some((decimal(t.take(d as int)) as u64, d))
    }
}

/// Parses a decimal prefix: the value and the bounds of the unparsed rest of the
/// trimmed input, or `None` without digits or on overflow.
pub fn parse_u64(bytes: &[u8]) -> (r: Option<(u64, usize, usize)>)
    ensures
        match (r, parse_u64_spec(bytes@)) {
            (Some((v, a, b)), Some((w, d))) => v == w && a <= b <= bytes@.len()
                && bytes@.subrange(a as int, b as int) == trimmed(bytes@).skip(d as int),
            (None, None) => true,
            _ => false,
        },
{
    let (start, end) = trim(bytes);
    let ghost t: Seq<u8> = trimmed(bytes@);
    proof {
        lemma_leading_digits(t);
    }
    let mut i: usize = start;
    while i < end && 48 <= bytes[i] && bytes[i] <= 57
        invariant
            start <= i <= end <= bytes@.len(),
            t == bytes@.subrange(start as int, end as int),
            forall|k: int| start <= k < i ==> is_digit(#[trigger] bytes@[k]),
        decreases end - i,
    {
        i = i + 1;
    }
    let ghost d: int = i - start;
    proof {
        assert forall|k: int| 0 <= k < d implies is_digit(#[trigger] t[k]) by {
            assert(t[k] == bytes@[start + k]);
        }
        if d < t.len() {
            assert(t[d] == bytes@[i as int]);
        }
        assert(leading_digits(t) == d) by {
            lemma_leading_digits_exact(t, d);
        }
    }
    if i == start {
        return None;
    }
    let mut value: u64 = 0;
    let mut k: usize = start;
    while k < i
        invariant
            start <= k <= i <= end <= bytes@.len(),
            d == i - start,
            t == bytes@.subrange(start as int, end as int),
            t == trimmed(bytes@),
            leading_digits(t) == d,
            forall|m: int| 0 <= m < d ==> is_digit(#[trigger] t[m]),
            value == decimal(t.take(k - start)),
        decreases i - k,
    {
        assert(t.take(k - start + 1).drop_last() == t.take(k - start));
        assert(t.take(k - start + 1).last() == bytes@[k as int]);
        let digit: u64 = (bytes[k] - 48) as u64;
        let next: Option<u64> = match value.checked_mul(10) {
            Some(m) => m.checked_add(digit),
            None => None,
        };
        match next {
            Some(n) => {
                value = n;
            }
            None => {
                proof {
                    assert(decimal(t.take(k - start + 1)) == value * 10 + digit);
                    lemma_decimal_monotone(t, k - start + 1, d);
                }
                return None;
            }
        }
        k = k + 1;
    }
    assert(t.skip(d) == bytes@.subrange(i as int, end as int));
    Some((value, i, end))
}

/// `d` is the number of leading digits when the first `d` bytes are digits and the next is not.
proof fn lemma_leading_digits_exact(s: Seq<u8>, d: int)
    requires
        0 <= d <= s.len(),
        forall|k: int| 0 <= k < d ==> is_digit(#[trigger] s[k]),
        d < s.len() ==> !is_digit(s[d]),
    ensures
        leading_digits(s) == d,
    decreases d,
{
    if d > 0 {
        assert forall|k: int| 0 <= k < d - 1 implies is_digit(#[trigger] s.drop_first()[k]) by {
            assert(s.drop_first()[k] == s[k + 1]);
        }
        if d - 1 < s.drop_first().len() {
            assert(s.drop_first()[d - 1] == s[d]);
        }
        lemma_leading_digits_exact(s.drop_first(), d - 1);
    }
}

/// The multiplier a size suffix names: k, m and g (either case) for 2^10, 2^20 and 2^30.
pub open spec fn suffix_multiplier(rest: Seq<u8>) -> u64 {
    if rest.len() == 0 {
        1
    } else if rest[0] == 107 || rest[0] == 75 {
        1024
    } else if rest[0] == 109 || rest[0] == 77 {
        1048576
    } else if rest[0] == 103 || rest[0] == 71 {
        1073741824
    } else {
        1
    }
}

/// What a size parse gives: the decimal prefix times its suffix's multiplier, `None`
/// without digits or past `u64::MAX`.
pub open spec fn parse_size_spec(s: Seq<u8>) -> Option<u64> {
    match parse_u64_spec(s) {
        Some((v, d)) => {
            let total = v * suffix_multiplier(trimmed(s).skip(d as int));
            if total > u64::MAX { None } else { Some(total as u64) }
        }
        None => None,
    }
}

/// Parses a size with an optional k/m/g suffix, as the cgroup and sysfs files write them.
pub fn parse_size(bytes: &[u8]) -> (r: Option<u64>)
    ensures
        r == parse_size_spec(bytes@),
{
    let (value, a, b) = match parse_u64(bytes) {
        Some(p) => p,
        None => return None,
    };
    let multiplier: u64 = if a == b {
        1
    } else if bytes[a] == 107 || bytes[a] == 75 {
        1024
    } else if bytes[a] == 109 || bytes[a] == 77 {
        1048576
    } else if bytes[a] == 103 || bytes[a] == 71 {
        1073741824
    } else {
        1
    };
    proof {
        if a < b {
            assert(bytes@.subrange(a as int, b as int)[0] == bytes@[a as int]);
        }
    }
    value.checked_mul(multiplier)
}

/// The first index at or after `i` that is not a space (32), or the length.
pub open spec fn field_start(s: Seq<u8>, i: int) -> int
    decreases s.len() - i,
{
    if 0 <= i < s.len() && s[i] == 32 {
        field_start(s, i + 1)
    } else if 0 <= i < s.len() {
        i
    } else {
        s.len() as int
    }
}

/// The first index at or after `i` that is a space (32), or the length.
pub open spec fn field_end(s: Seq<u8>, i: int) -> int
    decreases s.len() - i,
{
    if 0 <= i < s.len() && s[i] != 32 {
        field_end(s, i + 1)
    } else if 0 <= i < s.len() {
        i
    } else {
        s.len() as int
    }
}

/// The bounds of the next space-separated field of `s` at or after `from`.
pub open spec fn next_field_spec(s: Seq<u8>, from: int) -> Option<(int, int)> {
    let a = field_start(s, from);
    if a >= s.len() { None } else { Some((a, field_end(s, a))) }
}

/// The bounds of field `n` (counting from 0) of `s` from `from` on.
pub open spec fn nth_field_spec(s: Seq<u8>, from: int, n: nat) -> Option<(int, int)>
    decreases n,
{
    match next_field_spec(s, from) {
        None => None,
        Some((a, b)) => if n == 0 { Some((a, b)) } else { nth_field_spec(s, b, (n - 1) as nat) },
    }
}

/// The next space-separated field of `line` at or after `from`.
pub fn next_field(line: &[u8], from: usize) -> (r: Option<(usize, usize)>)
    requires
        from <= line@.len(),
    ensures
        match r {
            Some((a, b)) => next_field_spec(line@, from as int) == Some((a as int, b as int)) && a < b <= line@.len(),
            None => next_field_spec(line@, from as int) is None,
        },
{
    let len: usize = line.len();
    let mut a: usize = from;
    while a < len && line[a] == 32
        invariant
            from <= a <= len == line@.len(),
            field_start(line@, from as int) == field_start(line@, a as int),
        decreases len - a,
    {
        a = a + 1;
    }
    if a >= len {
        return None;
    }
    let mut b: usize = a;
    while b < len && line[b] != 32
        invariant
            a <= b <= len == line@.len(),
            a < len,
            line@[a as int] != 32,
            field_end(line@, a as int) == field_end(line@, b as int),
        decreases len - b,
    {
        b = b + 1;
    }
    Some((a, b))
}

/// Field `n` (counting from 0) of `line` from `from` on.
pub fn nth_field(line: &[u8], from: usize, n: usize) -> (r: Option<(usize, usize)>)
    requires
        from <= line@.len(),
    ensures
        match r {
            Some((a, b)) => nth_field_spec(line@, from as int, n as nat) == Some((a as int, b as int)) && a < b <= line@.len(),
            None => nth_field_spec(line@, from as int, n as nat) is None,
        },
{
    let mut pos: usize = from;
    let mut k: usize = 0;
    loop
        invariant
            pos <= line@.len(),
            k <= n,
            nth_field_spec(line@, from as int, n as nat) == nth_field_spec(line@, pos as int, (n - k) as nat),
        decreases n - k,
    {
        match next_field(line, pos) {
            None => return None,
            Some((a, b)) => {
                if k == n {
                    return Some((a, b));
                }
                pos = b;
                k = k + 1;
            }
        }
    }
}

/// The index of the first `b` in `s`, or -1.
pub open spec fn index_of(s: Seq<u8>, b: u8) -> int
    decreases s.len(),
{
    if s.len() == 0 {
        -1
    } else if s[0] == b {
        0
    } else {
        let k = index_of(s.drop_first(), b);
        if k < 0 { -1 } else { k + 1 }
    }
}

pub proof fn lemma_index_of(s: Seq<u8>, b: u8)
    ensures
        -1 <= index_of(s, b) < s.len(),
        index_of(s, b) >= 0 ==> s[index_of(s, b)] == b,
        forall|i: int| 0 <= i < s.len() && (index_of(s, b) < 0 || i < index_of(s, b)) ==> #[trigger] s[i] != b,
    decreases s.len(),
{
    if s.len() > 0 && s[0] != b {
        lemma_index_of(s.drop_first(), b);
        assert forall|i: int| 0 <= i < s.len() && (index_of(s, b) < 0 || i < index_of(s, b)) implies #[trigger] s[i] != b by {
            if i > 0 {
                assert(s[i] == s.drop_first()[i - 1]);
            }
        }
    }
}

/// The pieces of `s` between the separators `b`, as `split` yields them.
pub open spec fn split(s: Seq<u8>, b: u8) -> Seq<Seq<u8>>
    decreases s.len(),
{
    let i = index_of(s, b);
    if i < 0 || i >= s.len() {
        seq![s]
    } else {
        seq![s.take(i)].add(split(s.skip(i + 1), b))
    }
}

/// The first index at or after `from` holding `b`, or the length; `index_of` of the rest says the same.
pub fn find_byte(s: &[u8], from: usize, b: u8) -> (r: usize)
    requires
        from <= s@.len(),
    ensures
        from <= r <= s@.len(),
        r < s@.len() ==> index_of(s@.skip(from as int), b) == r - from,
        r == s@.len() ==> index_of(s@.skip(from as int), b) == -1,
{
    let mut i: usize = from;
    while i < s.len() && s[i] != b
        invariant
            from <= i <= s@.len(),
            forall|k: int| from <= k < i ==> s@[k] != b,
        decreases s@.len() - i,
    {
        i = i + 1;
    }
    proof {
        let t = s@.skip(from as int);
        lemma_index_of(t, b);
        let x = index_of(t, b);
        if x >= 0 && x < i - from {
            assert(t[x] == s@[from + x]);
        }
        if i < s@.len() {
            assert(t[i - from] == s@[i as int]);
        } else if x >= 0 {
            assert(t[x] == s@[from + x]);
        }
    }
    i
}

/// Whether `s[a..b]` is `item`.
pub fn range_equals(s: &[u8], a: usize, b: usize, item: &[u8]) -> (r: bool)
    requires
        a <= b <= s@.len(),
    ensures
        r == (s@.subrange(a as int, b as int) == item@),
{
    if b - a != item.len() {
        return false;
    }
    let mut i: usize = 0;
    while i < item.len()
        invariant
            a <= b <= s@.len(),
            b - a == item@.len(),
            i <= item@.len(),
            forall|k: int| 0 <= k < i ==> s@[a + k] == item@[k],
        decreases item@.len() - i,
    {
        if s[a + i] != item[i] {
            assert(s@.subrange(a as int, b as int)[i as int] != item@[i as int]);
            return false;
        }
        i = i + 1;
    }
    assert(s@.subrange(a as int, b as int) =~= item@);
    true
}

/// Whether one of the comma-separated entries of `list` is `item`.
pub fn list_contains(list: &[u8], item: &[u8]) -> (r: bool)
    ensures
        r == split(list@, 44).contains(item@),
{
    let len: usize = list.len();
    let mut pos: usize = 0;
    assert(list@.skip(0) == list@);
    loop
        invariant
            pos <= len == list@.len(),
            split(list@, 44).contains(item@) == split(list@.skip(pos as int), 44).contains(item@),
        decreases len - pos,
    {
        let j: usize = find_byte(list, pos, 44);
        let ghost rest: Seq<u8> = list@.skip(pos as int);
        let ghost segment: Seq<u8> = list@.subrange(pos as int, j as int);
        let found: bool = range_equals(list, pos, j, item);
        if j == len {
            proof {
                assert(rest.take(rest.len() as int) == rest);
                assert(segment == rest);
                assert(split(rest, 44) == seq![rest]);
                if split(rest, 44).contains(item@) {
                    let w = choose|w: int| 0 <= w < split(rest, 44).len() && split(rest, 44)[w] == item@;
                    assert(w == 0);
                }
                if found {
                    assert(split(rest, 44)[0] == item@);
                }
            }
            return found;
        }
        proof {
            assert(rest.take(j - pos) == segment);
            assert(rest.skip(j - pos + 1) == list@.skip(j + 1));
            let tail = split(list@.skip(j + 1), 44);
            assert(split(rest, 44) == seq![segment].add(tail));
            lemma_contains_cons(segment, tail, item@);
        }
        if found {
            return true;
        }
        pos = j + 1;
    }
}

/// An element is in `[a] + t` exactly when it is `a` or is in `t`.
pub proof fn lemma_contains_cons<A>(a: A, t: Seq<A>, x: A)
    ensures
        seq![a].add(t).contains(x) == (a == x || t.contains(x)),
{
    let s = seq![a].add(t);
    if s.contains(x) {
        let w = choose|w: int| 0 <= w < s.len() && s[w] == x;
        if w > 0 {
            assert(t[w - 1] == x);
        }
    }
    if a == x {
        assert(s[0] == x);
    }
    if t.contains(x) {
        let w = choose|w: int| 0 <= w < t.len() && t[w] == x;
        assert(s[w + 1] == x);
    }
}

/// Capacity of a path buffer, terminator included.
pub const PATH_CAPACITY: usize = 512;

/// A fixed-capacity path buffer, always NUL-terminated.
#[derive(Clone, Copy, Debug)]
pub struct Path {
    pub bytes: [u8; 512],
    pub length: usize,
}

impl Path {
    /// The buffer holds `length` bytes and a terminator after them.
    pub open spec fn wf(&self) -> bool {
        self.length < PATH_CAPACITY && self.bytes@[self.length as int] == 0
    }

    /// The path the buffer holds.
    pub open spec fn text(&self) -> Seq<u8> {
        self.bytes@.take(self.length as int)
    }

    pub fn new() -> (p: Path)
        ensures
            p.wf(),
            p.text() == Seq::<u8>::empty(),
    {
        let p = Path { bytes: [0u8; 512], length: 0 };
        assert(p.text() =~= Seq::<u8>::empty());
        p
    }

    /// Replaces the path with `value`; `false`, and nothing changed, when it does not
    /// fit with its terminator.
    pub fn set(&mut self, value: &[u8]) -> (r: bool)
        requires
            old(self).wf(),
        ensures
            final(self).wf(),
            r == (value@.len() < PATH_CAPACITY),
            r ==> final(self).text() == value@,
            !r ==> *final(self) == *old(self),
    {
        if value.len() >= PATH_CAPACITY {
            return false;
        }
        let mut i: usize = 0;
        while i < value.len()
            invariant
                value@.len() < PATH_CAPACITY,
                i <= value@.len(),
                self.bytes@.len() == PATH_CAPACITY,
                forall|k: int| 0 <= k < i ==> self.bytes@[k] == value@[k],
            decreases value@.len() - i,
        {
            self.bytes[i] = value[i];
            i = i + 1;
        }
        self.bytes[value.len()] = 0;
        self.length = value.len();
        assert(self.text() =~= value@);
        true
    }

    /// Appends `value`; `false`, and nothing changed, when the result does not fit
    /// with its terminator.
    pub fn push(&mut self, value: &[u8]) -> (r: bool)
        requires
            old(self).wf(),
        ensures
            final(self).wf(),
            r == (old(self).length + value@.len() < PATH_CAPACITY),
            r ==> final(self).text() == old(self).text() + value@,
            !r ==> *final(self) == *old(self),
    {
        if value.len() >= PATH_CAPACITY - self.length {
            return false;
        }
        let start: usize = self.length;
        let ghost before: Seq<u8> = self.text();
        let mut i: usize = 0;
        while i < value.len()
            invariant
                start + value@.len() < PATH_CAPACITY,
                i <= value@.len(),
                self.bytes@.len() == PATH_CAPACITY,
                before.len() == start,
                forall|k: int| 0 <= k < start ==> self.bytes@[k] == before[k],
                forall|k: int| 0 <= k < i ==> self.bytes@[start + k] == value@[k],
            decreases value@.len() - i,
        {
            self.bytes[start + i] = value[i];
            i = i + 1;
        }
        self.length = start + value.len();
        self.bytes[self.length] = 0;
        assert(self.text() =~= before + value@);
        true
    }

    /// The path's bytes.
    pub fn as_slice(&self) -> (r: &[u8])
        requires
            self.wf(),
        ensures
            r@ == self.text(),
    {
        let all: &[u8] = self.bytes.as_slice();
        let r: &[u8] = vstd::slice::slice_subrange(all, 0, self.length);
        assert(r@ =~= self.text());
        r
    }

    /// The path's bytes with their terminator, as the C library takes them.
    pub fn c_str(&self) -> (r: &[u8])
        requires
            self.wf(),
        ensures
            r@ == self.text().push(0),
    {
        let all: &[u8] = self.bytes.as_slice();
        let r: &[u8] = vstd::slice::slice_subrange(all, 0, self.length + 1);
        assert(r@ =~= self.text().push(0));
        r
    }

    /// Cuts the path to its first `length` bytes.
    pub fn truncate(&mut self, length: usize)
        requires
            old(self).wf(),
            length <= old(self).length,
        ensures
            final(self).wf(),
            final(self).text() == old(self).text().take(length as int),
    {
        self.length = length;
        self.bytes[length] = 0;
        assert(self.text() =~= old(self).text().take(length as int));
    }
}

/// Whether `s` holds the mountinfo separator " - " at `i`.
pub open spec fn separator_at(s: Seq<u8>, i: int) -> bool {
    0 <= i && i + 3 <= s.len() && s[i] == 32 && s[i + 1] == 45 && s[i + 2] == 32
}

/// The first index at or after `i` of the mountinfo separator, or -1.
pub open spec fn first_separator(s: Seq<u8>, i: int) -> int
    decreases s.len() - i,
{
    if i < 0 || i + 3 > s.len() {
        -1
    } else if separator_at(s, i) {
        i
    } else {
        first_separator(s, i + 1)
    }
}

/// The index of the first " - " in `line`.
pub fn find_separator(line: &[u8]) -> (r: Option<usize>)
    ensures
        match r {
            Some(i) => first_separator(line@, 0) == i && i + 3 <= line@.len() && line@.len() <= usize::MAX,
            None => first_separator(line@, 0) == -1,
        },
{
    let len: usize = line.len();
    if len < 3 {
        return None;
    }
    let mut i: usize = 0;
    while i <= len - 3
        invariant
            first_separator(line@, 0) == first_separator(line@, i as int),
            len == line@.len(),
            len >= 3,
        decreases len - i,
    {
        if line[i] == 32 && line[i + 1] == 45 && line[i + 2] == 32 {
            return Some(i);
        }
        i = i + 1;
    }
    None
}

/// The bytes of "cgroup".
pub open spec fn cgroup_name() -> Seq<u8> {
    seq![99u8, 103u8, 114u8, 111u8, 117u8, 112u8]
}

/// The bytes of "cgroup2".
pub open spec fn cgroup2_name() -> Seq<u8> {
    seq![99u8, 103u8, 114u8, 111u8, 117u8, 112u8, 50u8]
}

/// What one line of /proc/self/mountinfo says of the hierarchy carrying `controller`
/// (version 1) or the unified hierarchy (version 2): the bounds of its root and of
/// its mount point, when the line is one.
pub open spec fn mount_line_spec(version: u8, controller: Seq<u8>, s: Seq<u8>) -> Option<((int, int), (int, int))> {
    let sep = first_separator(s, 0);
    if sep < 0 {
        None
    } else {
        let tail = s.skip(sep + 3);
        match (nth_field_spec(tail, 0, 0), nth_field_spec(tail, 0, 1), nth_field_spec(tail, 0, 2)) {
            (Some(f), Some(_), Some(o)) => {
                let fs = tail.subrange(f.0, f.1);
                let matches = if version == 2 {
                    fs == cgroup2_name()
                } else {
                    fs == cgroup_name() && split(tail.subrange(o.0, o.1), 44).contains(controller)
                };
                if !matches {
                    None
                } else {
                    let head = s.take(sep);
                    match (nth_field_spec(head, 0, 3), nth_field_spec(head, 0, 4)) {
                        (Some(r), Some(m)) => Some((r, m)),
                        _ => None,
                    }
                }
            }
            _ => None,
        }
    }
}

/// Reads one mountinfo line: the bounds of the hierarchy's root and mount point.
pub fn mount_line(version: u8, controller: &[u8], line: &[u8]) -> (r: Option<((usize, usize), (usize, usize))>)
    ensures
        match r {
            Some(((a, b), (c, d))) => mount_line_spec(version, controller@, line@) == Some(((a as int, b as int), (c as int, d as int)))
                && a <= b <= line@.len() && c <= d <= line@.len(),
            None => mount_line_spec(version, controller@, line@) is None,
        },
{
    let sep: usize = match find_separator(line) {
        Some(i) => i,
        None => return None,
    };
    let tail: &[u8] = vstd::slice::slice_subrange(line, sep + 3, line.len());
    assert(tail@ == line@.skip(sep + 3));
    let f: (usize, usize) = match nth_field(tail, 0, 0) {
        Some(x) => x,
        None => return None,
    };
    let source: (usize, usize) = match nth_field(tail, 0, 1) {
        Some(x) => x,
        None => return None,
    };
    let o: (usize, usize) = match nth_field(tail, 0, 2) {
        Some(x) => x,
        None => return None,
    };
    let cgroup2: [u8; 7] = [99, 103, 114, 111, 117, 112, 50];
    let cgroup: [u8; 6] = [99, 103, 114, 111, 117, 112];
    assert(cgroup2@ == cgroup2_name());
    assert(cgroup@ == cgroup_name());
    let matches: bool = if version == 2 {
        range_equals(tail, f.0, f.1, cgroup2.as_slice())
    } else {
        range_equals(tail, f.0, f.1, cgroup.as_slice())
            && list_contains(vstd::slice::slice_subrange(tail, o.0, o.1), controller)
    };
    if !matches {
        return None;
    }
    let head: &[u8] = vstd::slice::slice_subrange(line, 0, sep);
    assert(head@ == line@.take(sep as int));
    let root: (usize, usize) = match nth_field(head, 0, 3) {
        Some(x) => x,
        None => return None,
    };
    let mount: (usize, usize) = match nth_field(head, 0, 4) {
        Some(x) => x,
        None => return None,
    };
    Some((root, mount))
}

/// What one line of /proc/self/cgroup says: the bounds of the cgroup path for
/// `controller` (version 1) or of the unified hierarchy's path (version 2), when the
/// line is that one. A line reads `id:controllers:path`.
pub open spec fn cgroup_line_spec(version: u8, controller: Seq<u8>, s: Seq<u8>) -> Option<(int, int)> {
    let i = index_of(s, 58);
    if i < 0 {
        None
    } else {
        let rest = s.skip(i + 1);
        let j = index_of(rest, 58);
        if j < 0 {
            None
        } else {
            let id = s.take(i);
            let controllers = rest.take(j);
            let matches = if version == 2 {
                id == seq![48u8] && controllers.len() == 0
            } else {
                split(controllers, 44).contains(controller)
            };
            if matches { Some((i + 1 + j + 1, s.len() as int)) } else { None }
        }
    }
}

/// Reads one /proc/self/cgroup line.
pub fn cgroup_line(version: u8, controller: &[u8], line: &[u8]) -> (r: Option<(usize, usize)>)
    ensures
        match r {
            Some((a, b)) => cgroup_line_spec(version, controller@, line@) == Some((a as int, b as int)) && a <= b == line@.len(),
            None => cgroup_line_spec(version, controller@, line@) is None,
        },
{
    let len: usize = line.len();
    let i: usize = find_byte(line, 0, 58);
    assert(line@.skip(0) == line@);
    if i == len {
        return None;
    }
    let j: usize = find_byte(line, i + 1, 58);
    if j == len {
        return None;
    }
    let ghost rest: Seq<u8> = line@.skip(i + 1);
    assert(rest.take(j - i - 1) == line@.subrange(i + 1, j as int));
    let matches: bool = if version == 2 {
        let zero: [u8; 1] = [48];
        assert(zero@ == seq![48u8]);
        assert(line@.take(i as int) == line@.subrange(0, i as int));
        range_equals(line, 0, i, zero.as_slice()) && j == i + 1
    } else {
        list_contains(vstd::slice::slice_subrange(line, i + 1, j), controller)
    };
    if matches { Some((j + 1, len)) } else { None }
}

/// Whether a mountinfo line names the hierarchy and both its paths fit a path buffer.
pub open spec fn usable_mount(version: u8, controller: Seq<u8>, line: Seq<u8>) -> bool {
    match mount_line_spec(version, controller, line) {
        Some(((a, b), (c, d))) => b - a < PATH_CAPACITY && d - c < PATH_CAPACITY,
        None => false,
    }
}

/// Finds the mount point and root of the cgroup hierarchy in the lines of
/// /proc/self/mountinfo: the first line that names it with paths that fit.
pub fn hierarchy_mount(version: u8, controller: &[u8], lines: &Vec<Vec<u8>>, mount: &mut Path, root: &mut Path) -> (r: bool)
    requires
        old(mount).wf(),
        old(root).wf(),
    ensures
        final(mount).wf(),
        final(root).wf(),
        r == exists|k: int| 0 <= k < lines@.len() && usable_mount(version, controller@, #[trigger] lines@[k]@),
        r ==> exists|k: int| 0 <= k < lines@.len() && usable_mount(version, controller@, #[trigger] lines@[k]@)
            && (forall|j: int| 0 <= j < k ==> !usable_mount(version, controller@, #[trigger] lines@[j]@))
            && (mount_line_spec(version, controller@, lines@[k]@) matches Some(((a, b), (c, d)))
                && final(root).text() == lines@[k]@.subrange(a, b) && final(mount).text() == lines@[k]@.subrange(c, d)),
{
    let mut k: usize = 0;
    while k < lines.len()
        invariant
            k <= lines@.len(),
            mount.wf(),
            root.wf(),
            forall|j: int| 0 <= j < k ==> !usable_mount(version, controller@, #[trigger] lines@[j]@),
        decreases lines@.len() - k,
    {
        let line: &Vec<u8> = &lines[k];
        match mount_line(version, controller, line.as_slice()) {
            Some(((a, b), (c, d))) => {
                let root_text: &[u8] = vstd::slice::slice_subrange(line.as_slice(), a, b);
                let mount_text: &[u8] = vstd::slice::slice_subrange(line.as_slice(), c, d);
                if root.set(root_text) && mount.set(mount_text) {
                    return true;
                }
            }
            None => {}
        }
        k = k + 1;
    }
    false
}

/// Whether a /proc/self/cgroup line names the cgroup.
pub open spec fn named_cgroup(version: u8, controller: Seq<u8>, line: Seq<u8>) -> bool {
    cgroup_line_spec(version, controller, line) is Some
}

/// The cgroup path of this process relative to the hierarchy root, from the lines of
/// /proc/self/cgroup: the first line that names it decides, and fails when the path
/// does not fit a path buffer.
pub fn cgroup_relative(version: u8, controller: &[u8], lines: &Vec<Vec<u8>>, out: &mut Path) -> (r: bool)
    requires
        old(out).wf(),
    ensures
        final(out).wf(),
        r ==> exists|k: int| 0 <= k < lines@.len() && named_cgroup(version, controller@, #[trigger] lines@[k]@)
            && (forall|j: int| 0 <= j < k ==> !named_cgroup(version, controller@, #[trigger] lines@[j]@))
            && (cgroup_line_spec(version, controller@, lines@[k]@) matches Some((a, b))
                && final(out).text() == lines@[k]@.subrange(a, b)),
        !r ==> forall|k: int| 0 <= k < lines@.len() && named_cgroup(version, controller@, #[trigger] lines@[k]@)
            && (forall|j: int| 0 <= j < k ==> !named_cgroup(version, controller@, #[trigger] lines@[j]@))
            ==> (cgroup_line_spec(version, controller@, lines@[k]@) matches Some((a, b)) && b - a >= PATH_CAPACITY),
{
    let mut k: usize = 0;
    while k < lines.len()
        invariant
            k <= lines@.len(),
            out.wf(),
            forall|j: int| 0 <= j < k ==> !named_cgroup(version, controller@, #[trigger] lines@[j]@),
        decreases lines@.len() - k,
    {
        let line: &Vec<u8> = &lines[k];
        match cgroup_line(version, controller, line.as_slice()) {
            Some((a, b)) => {
                let r: bool = out.set(vstd::slice::slice_subrange(line.as_slice(), a, b));
                proof {
                    assert(named_cgroup(version, controller@, lines@[k as int]@));
                    assert forall|m: int| 0 <= m < lines@.len() && named_cgroup(version, controller@, #[trigger] lines@[m]@)
                        && (forall|j: int| 0 <= j < m ==> !named_cgroup(version, controller@, #[trigger] lines@[j]@))
                        implies m == k by {
                        if m < k {
                        } else if m > k {
                            assert(!named_cgroup(version, controller@, lines@[k as int]@));
                        }
                    }
                }
                return r;
            }
            None => {}
        }
        k = k + 1;
    }
    false
}

/// Whether `s` starts with `prefix`.
pub open spec fn starts_with_spec(s: Seq<u8>, prefix: Seq<u8>) -> bool {
    s.len() >= prefix.len() && s.take(prefix.len() as int) == prefix
}

pub fn starts_with(bytes: &[u8], prefix: &[u8]) -> (r: bool)
    ensures
        r == starts_with_spec(bytes@, prefix@),
{
    if bytes.len() < prefix.len() {
        return false;
    }
    let r: bool = range_equals(bytes, 0, prefix.len(), prefix);
    assert(bytes@.subrange(0, prefix@.len() as int) == bytes@.take(prefix@.len() as int));
    r
}

/// How much of the relative path the hierarchy root covers: nothing for the root
/// "/" or a path outside it, the root's length otherwise.
pub open spec fn covered(root: Seq<u8>, relative: Seq<u8>) -> int {
    if root.len() == 1 || !starts_with_spec(relative, root) { 0 } else { root.len() as int }
}

/// The directory of a cgroup: the hierarchy's mount point joined with the part of the
/// cgroup path below the hierarchy root; `false` when it does not fit.
pub fn join_cgroup(mount: &Path, root: &Path, relative: &Path, out: &mut Path) -> (r: bool)
    requires
        mount.wf(),
        root.wf(),
        relative.wf(),
        old(out).wf(),
    ensures
        final(out).wf(),
        r == (mount.text().len() + relative.text().len() - covered(root.text(), relative.text()) < PATH_CAPACITY),
        r ==> final(out).text() == mount.text() + relative.text().skip(covered(root.text(), relative.text())),
{
    let rel: &[u8] = relative.as_slice();
    let root_bytes: &[u8] = root.as_slice();
    let root_len: usize = if root.length == 1 || !starts_with(rel, root_bytes) { 0 } else { root.length };
    let mount_bytes: &[u8] = mount.as_slice();
    if !out.set(mount_bytes) {
        return false;
    }
    let suffix: &[u8] = vstd::slice::slice_subrange(rel, root_len, rel.len());
    assert(suffix@ == relative.text().skip(root_len as int));
    out.push(suffix)
}

/// The memory and cpu cgroup directories of this process. An empty path is a
/// controller without a usable directory; version 0 is no cgroup file system.
#[derive(Clone, Copy, Debug)]
pub struct CGroups {
    pub version: u8,
    pub memory: Path,
    pub memory_mount: Path,
    pub cpu: Path,
}

/// Whether line `k` is the first mountinfo line that names the hierarchy with paths that fit.
pub open spec fn first_mount(version: u8, controller: Seq<u8>, lines: Seq<Seq<u8>>, k: int) -> bool {
    &&& 0 <= k < lines.len()
    &&& usable_mount(version, controller, lines[k])
    &&& forall|j: int| 0 <= j < k ==> !usable_mount(version, controller, #[trigger] lines[j])
}

/// Whether line `m` is the first cgroup line that names the controller's cgroup.
pub open spec fn first_cgroup(version: u8, controller: Seq<u8>, lines: Seq<Seq<u8>>, m: int) -> bool {
    &&& 0 <= m < lines.len()
    &&& named_cgroup(version, controller, lines[m])
    &&& forall|j: int| 0 <= j < m ==> !named_cgroup(version, controller, #[trigger] lines[j])
}

/// The directory of the cgroup for `controller` and its hierarchy's mount point: the
/// first usable mount line and the first cgroup line that names the controller decide;
/// `None` when either is missing, the cgroup path does not fit a path buffer, or the
/// joined directory does not.
pub open spec fn directory_spec(version: u8, controller: Seq<u8>, mountinfo: Seq<Seq<u8>>, cgroup: Seq<Seq<u8>>) -> Option<(Seq<u8>, Seq<u8>)> {
    if (exists|k: int| first_mount(version, controller, mountinfo, k)) && (exists|m: int| first_cgroup(version, controller, cgroup, m)) {
        let k = choose|k: int| first_mount(version, controller, mountinfo, k);
        let m = choose|m: int| first_cgroup(version, controller, cgroup, m);
        match (mount_line_spec(version, controller, mountinfo[k]), cgroup_line_spec(version, controller, cgroup[m])) {
            (Some(((a, b), (c, d))), Some((p, q))) => {
                let mount = mountinfo[k].subrange(c, d);
                let relative = cgroup[m].subrange(p, q);
                let cut = covered(mountinfo[k].subrange(a, b), relative);
                if q - p >= PATH_CAPACITY || mount.len() + relative.len() - cut >= PATH_CAPACITY {
                    None
                } else {
                    Some((mount + relative.skip(cut), mount))
                }
            },
            _ => None,
        }
    } else {
        None
    }
}

/// The first usable mount line and the first naming cgroup line are unique.
proof fn lemma_first_unique(version: u8, controller: Seq<u8>, mountinfo: Seq<Seq<u8>>, cgroup: Seq<Seq<u8>>)
    ensures
        forall|k1: int, k2: int| first_mount(version, controller, mountinfo, k1) && first_mount(version, controller, mountinfo, k2) ==> k1 == k2,
        forall|m1: int, m2: int| first_cgroup(version, controller, cgroup, m1) && first_cgroup(version, controller, cgroup, m2) ==> m1 == m2,
{
    assert forall|k1: int, k2: int| first_mount(version, controller, mountinfo, k1) && first_mount(version, controller, mountinfo, k2) implies k1 == k2 by {
        if k1 < k2 {
            assert(usable_mount(version, controller, mountinfo[k1]));
        } else if k2 < k1 {
            assert(usable_mount(version, controller, mountinfo[k2]));
        }
    }
    assert forall|m1: int, m2: int| first_cgroup(version, controller, cgroup, m1) && first_cgroup(version, controller, cgroup, m2) implies m1 == m2 by {
        if m1 < m2 {
            assert(named_cgroup(version, controller, cgroup[m1]));
        } else if m2 < m1 {
            assert(named_cgroup(version, controller, cgroup[m2]));
        }
    }
}

/// The directory of the cgroup for `controller`: the hierarchy from mountinfo and the
/// path from /proc/self/cgroup, joined. `mount_out` gets the mount point on success.
pub fn cgroup_directory(version: u8, controller: &[u8], mountinfo: &Vec<Vec<u8>>, cgroup: &Vec<Vec<u8>>, out: &mut Path, mount_out: &mut Path) -> (r: bool)
    requires
        old(out).wf(),
        old(mount_out).wf(),
    ensures
        final(out).wf(),
        final(mount_out).wf(),
        !r ==> *final(mount_out) == *old(mount_out),
        r ==> exists|k: int, m: int|
            0 <= k < mountinfo@.len() && 0 <= m < cgroup@.len()
            && usable_mount(version, controller@, #[trigger] mountinfo@[k]@)
            && (forall|j: int| 0 <= j < k ==> !usable_mount(version, controller@, #[trigger] mountinfo@[j]@))
            && named_cgroup(version, controller@, #[trigger] cgroup@[m]@)
            && (forall|j: int| 0 <= j < m ==> !named_cgroup(version, controller@, #[trigger] cgroup@[j]@))
            && (mount_line_spec(version, controller@, mountinfo@[k]@) matches Some(((a, b), (c, d)))
                && (cgroup_line_spec(version, controller@, cgroup@[m]@) matches Some((p, q))
                    && q - p < PATH_CAPACITY
                    && final(mount_out).text() == mountinfo@[k]@.subrange(c, d)
                    && final(out).text() == mountinfo@[k]@.subrange(c, d) + cgroup@[m]@.subrange(p, q).skip(
                        covered(mountinfo@[k]@.subrange(a, b), cgroup@[m]@.subrange(p, q))))),
        r == directory_spec(version, controller@, views(mountinfo@), views(cgroup@)) is Some,
        r ==> (directory_spec(version, controller@, views(mountinfo@), views(cgroup@)) matches Some((directory, mount))
            && final(out).text() == directory && final(mount_out).text() == mount),
        !r ==> (forall|k: int| 0 <= k < mountinfo@.len() ==> !usable_mount(version, controller@, #[trigger] mountinfo@[k]@))
            || (forall|m: int| 0 <= m < cgroup@.len() && named_cgroup(version, controller@, #[trigger] cgroup@[m]@)
                && (forall|j: int| 0 <= j < m ==> !named_cgroup(version, controller@, #[trigger] cgroup@[j]@))
                ==> (cgroup_line_spec(version, controller@, cgroup@[m]@) matches Some((p, q)) && q - p >= PATH_CAPACITY))
            || exists|k: int, m: int|
                0 <= k < mountinfo@.len() && 0 <= m < cgroup@.len()
                && usable_mount(version, controller@, #[trigger] mountinfo@[k]@)
                && (forall|j: int| 0 <= j < k ==> !usable_mount(version, controller@, #[trigger] mountinfo@[j]@))
                && named_cgroup(version, controller@, #[trigger] cgroup@[m]@)
                && (forall|j: int| 0 <= j < m ==> !named_cgroup(version, controller@, #[trigger] cgroup@[j]@))
                && (mount_line_spec(version, controller@, mountinfo@[k]@) matches Some(((a, b), (c, d)))
                    && (cgroup_line_spec(version, controller@, cgroup@[m]@) matches Some((p, q))
                        && mountinfo@[k]@.subrange(c, d).len() + cgroup@[m]@.subrange(p, q).len()
                            - covered(mountinfo@[k]@.subrange(a, b), cgroup@[m]@.subrange(p, q)) >= PATH_CAPACITY)),
{
    let mut mount: Path = Path::new();
    let mut root: Path = Path::new();
    let mut relative: Path = Path::new();
    let ghost mi = views(mountinfo@);
    let ghost cg = views(cgroup@);
    proof {
        lemma_first_unique(version, controller@, mi, cg);
        assert forall|k: int| 0 <= k < mountinfo@.len() implies #[trigger] mi[k] == mountinfo@[k]@ by {}
        assert forall|m: int| 0 <= m < cgroup@.len() implies #[trigger] cg[m] == cgroup@[m]@ by {}
    }
    if !hierarchy_mount(version, controller, mountinfo, &mut mount, &mut root) {
        proof {
            if exists|k: int| first_mount(version, controller@, mi, k) {
                let k = choose|k: int| first_mount(version, controller@, mi, k);
                assert(usable_mount(version, controller@, mountinfo@[k]@));
            }
        }
        return false;
    }
    if !cgroup_relative(version, controller, cgroup, &mut relative) {
        proof {
            if exists|m: int| first_cgroup(version, controller@, cg, m) {
                let m = choose|m: int| first_cgroup(version, controller@, cg, m);
                assert(named_cgroup(version, controller@, cgroup@[m]@));
                assert forall|j: int| 0 <= j < m implies !named_cgroup(version, controller@, #[trigger] cgroup@[j]@) by {
                    assert(cg[j] == cgroup@[j]@);
                }
            }
        }
        return false;
    }
    let ghost k = choose|k: int| 0 <= k < mountinfo@.len() && usable_mount(version, controller@, #[trigger] mountinfo@[k]@)
        && (forall|j: int| 0 <= j < k ==> !usable_mount(version, controller@, #[trigger] mountinfo@[j]@))
        && (mount_line_spec(version, controller@, mountinfo@[k]@) matches Some(((a, b), (c, d)))
            && root.text() == mountinfo@[k]@.subrange(a, b) && mount.text() == mountinfo@[k]@.subrange(c, d));
    let ghost m = choose|m: int| 0 <= m < cgroup@.len() && named_cgroup(version, controller@, #[trigger] cgroup@[m]@)
        && (forall|j: int| 0 <= j < m ==> !named_cgroup(version, controller@, #[trigger] cgroup@[j]@))
        && (cgroup_line_spec(version, controller@, cgroup@[m]@) matches Some((p, q))
            && relative.text() == cgroup@[m]@.subrange(p, q));
    proof {
        assert(first_mount(version, controller@, mi, k));
        assert(first_cgroup(version, controller@, cg, m));
        assert(usable_mount(version, controller@, mountinfo@[k]@) && named_cgroup(version, controller@, cgroup@[m]@));
    }
    if !join_cgroup(&mount, &root, &relative, out) {
        return false;
    }
    let mt: &[u8] = mount.as_slice();
    mount_out.set(mt);
    true
}

/// The bytes of "memory".
pub open spec fn memory_controller() -> Seq<u8> {
    seq![109u8, 101u8, 109u8, 111u8, 114u8, 121u8]
}

/// The bytes of "cpu".
pub open spec fn cpu_controller() -> Seq<u8> {
    seq![99u8, 112u8, 117u8]
}

/// The directory a search found, or an empty path.
pub open spec fn directory_or_empty(found: Option<(Seq<u8>, Seq<u8>)>) -> Seq<u8> {
    match found {
        Some((directory, _)) => directory,
        None => Seq::empty(),
    }
}

/// The mount point a search found, or an empty path.
pub open spec fn mount_or_empty(found: Option<(Seq<u8>, Seq<u8>)>) -> Seq<u8> {
    match found {
        Some((_, mount)) => mount,
        None => Seq::empty(),
    }
}

/// Discovers the cgroups of this process for a cgroup file system of `version`,
/// from the lines of /proc/self/mountinfo and /proc/self/cgroup.
pub fn discover_cgroups(version: u8, mountinfo: &Vec<Vec<u8>>, cgroup: &Vec<Vec<u8>>) -> (g: CGroups)
    ensures
        g.version == version,
        g.memory.wf() && g.memory_mount.wf() && g.cpu.wf(),
        version == 0 ==> g.memory.text().len() == 0 && g.memory_mount.text().len() == 0 && g.cpu.text().len() == 0,
        version != 0 ==> {
            &&& g.memory.text() == directory_or_empty(directory_spec(version, memory_controller(), views(mountinfo@), views(cgroup@)))
            &&& g.memory_mount.text() == mount_or_empty(directory_spec(version, memory_controller(), views(mountinfo@), views(cgroup@)))
            &&& g.cpu.text() == directory_or_empty(directory_spec(version, cpu_controller(), views(mountinfo@), views(cgroup@)))
        },
{
    let mut groups = CGroups { version, memory: Path::new(), memory_mount: Path::new(), cpu: Path::new() };
    if version == 0 {
        return groups;
    }
    let memory_name: [u8; 6] = [109, 101, 109, 111, 114, 121];
    let cpu_name: [u8; 3] = [99, 112, 117];
    assert(memory_name@ == memory_controller());
    assert(cpu_name@ == cpu_controller());
    let mut memory: Path = Path::new();
    let mut mount: Path = Path::new();
    let mut cpu: Path = Path::new();
    let mut unused: Path = Path::new();
    if cgroup_directory(version, memory_name.as_slice(), mountinfo, cgroup, &mut memory, &mut mount) {
        groups.memory = memory;
        groups.memory_mount = mount;
    }
    if cgroup_directory(version, cpu_name.as_slice(), mountinfo, cgroup, &mut cpu, &mut unused) {
        groups.cpu = cpu;
    }
    groups
}

/// The index of the last `b` in `s`, or -1.
pub open spec fn last_index_of(s: Seq<u8>, b: u8) -> int
    decreases s.len(),
{
    if s.len() == 0 {
        -1
    } else if s.last() == b {
        s.len() - 1
    } else {
        last_index_of(s.drop_last(), b)
    }
}

/// One step up a cgroup directory towards the hierarchy mount: the directory is cut at
/// its last '/', unless it is the mount itself, has no '/', or the cut would leave the
/// mount. Whether there is a directory left to look at.
pub fn up(directory: &mut Path, mount_length: usize) -> (r: bool)
    requires
        old(directory).wf(),
    ensures
        final(directory).wf(),
        r == (old(directory).length > mount_length && last_index_of(old(directory).text(), 47) >= mount_length),
        r ==> final(directory).text() == old(directory).text().take(last_index_of(old(directory).text(), 47)),
        !r ==> *final(directory) == *old(directory),
{
    if directory.length <= mount_length {
        return false;
    }
    let ghost t: Seq<u8> = directory.text();
    let mut i: usize = directory.length;
    assert(t.take(i as int) == t);
    while i > 0 && directory.bytes[i - 1] != 47
        invariant
            directory.wf(),
            t == directory.text(),
            i <= directory.length,
            last_index_of(t, 47) == last_index_of(t.take(i as int), 47),
        decreases i,
    {
        assert(t.take(i as int).drop_last() == t.take(i as int - 1));
        i = i - 1;
    }
    proof {
        if i > 0 {
            assert(t.take(i as int).last() == 47);
        }
        assert(t.take(directory.length as int) == t);
    }
    if i == 0 || i - 1 < mount_length {
        return false;
    }
    directory.truncate(i - 1);
    true
}

/// The tighter of a limit found so far and one more limit.
pub open spec fn tighter_spec(best: Option<u64>, value: Option<u64>) -> Option<u64> {
    match value {
        Some(v) => match best {
            Some(b) => Some(if b <= v { b } else { v }),
            None => Some(v),
        },
        None => best,
    }
}

/// The tightening law: the result is the smaller of the two limits there are, and no
/// limit only when there is neither.
pub proof fn lemma_tighter(best: Option<u64>, value: Option<u64>)
    ensures
        tighter_spec(best, value) is None <==> (best is None && value is None),
        tighter_spec(best, value) matches Some(t) ==> (best matches Some(b) ==> t <= b)
            && (value matches Some(v) ==> t <= v) && (best == Some(t) || value == Some(t)),
{
}

pub fn tighter(best: Option<u64>, value: Option<u64>) -> (r: Option<u64>)
    ensures
        r == tighter_spec(best, value),
{
    match value {
        Some(v) => match best {
            Some(b) => Some(if b <= v { b } else { v }),
            None => Some(v),
        },
        None => best,
    }
}

/// The walk from a process cgroup up to the hierarchy mount that the unified
/// hierarchy's memory limit takes: the tightest limit on the way wins.
#[derive(Clone, Copy, Debug)]
pub struct MemoryWalk {
    pub directory: Path,
    pub mount_length: usize,
    pub best: Option<u64>,
}

impl MemoryWalk {
    pub fn new(directory: Path, mount_length: usize) -> (w: MemoryWalk)
        requires
            directory.wf(),
        ensures
            w.directory == directory && w.mount_length == mount_length && w.best is None,
    {
        MemoryWalk { directory, mount_length, best: None }
    }

    /// Takes the limit read in the current directory and moves up; whether there is
    /// another directory to read.
    pub fn visit(&mut self, limit: Option<u64>) -> (r: bool)
        requires
            old(self).directory.wf(),
        ensures
            final(self).directory.wf(),
            final(self).mount_length == old(self).mount_length,
            final(self).best == tighter_spec(old(self).best, limit),
            r == (old(self).directory.length > old(self).mount_length
                && last_index_of(old(self).directory.text(), 47) >= old(self).mount_length),
            r ==> final(self).directory.text() == old(self).directory.text().take(last_index_of(old(self).directory.text(), 47)),
    {
        self.best = tighter(self.best, limit);
        up(&mut self.directory, self.mount_length)
    }
}

/// The walk the swap limit takes: the tightest swap limit, and the swap charged as
/// the first directory on the way that reports it says.
#[derive(Clone, Copy, Debug)]
pub struct SwapWalk {
    pub directory: Path,
    pub mount_length: usize,
    pub limit: Option<u64>,
    pub used: Option<u64>,
}

impl SwapWalk {
    pub fn new(directory: Path, mount_length: usize) -> (w: SwapWalk)
        requires
            directory.wf(),
        ensures
            w.directory == directory && w.mount_length == mount_length && w.limit is None && w.used is None,
    {
        SwapWalk { directory, mount_length, limit: None, used: None }
    }

    /// Takes the limit and the charge read in the current directory and moves up;
    /// whether there is another directory to read.
    pub fn visit(&mut self, limit: Option<u64>, used: Option<u64>) -> (r: bool)
        requires
            old(self).directory.wf(),
        ensures
            final(self).directory.wf(),
            final(self).mount_length == old(self).mount_length,
            final(self).limit == tighter_spec(old(self).limit, limit),
            final(self).used == (if old(self).used is None { used } else { old(self).used }),
            r == (old(self).directory.length > old(self).mount_length
                && last_index_of(old(self).directory.text(), 47) >= old(self).mount_length),
    {
        self.limit = tighter(self.limit, limit);
        if self.used.is_none() {
            self.used = used;
        }
        up(&mut self.directory, self.mount_length)
    }

    /// The swap limit and charge the walk found: nothing without a limit, a charge of 0 if none was reported.
    pub fn result(&self) -> (r: Option<(u64, u64)>)
        ensures
            r == (match self.limit {
                Some(l) => Some((l, match self.used { Some(u) => u, None => 0u64 })),
                None => None::<(u64, u64)>,
            }),
    {
        match self.limit {
            Some(l) => Some((l, match self.used { Some(u) => u, None => 0 })),
            None => None,
        }
    }
}

/// The version 1 memory limit: the hierarchical limit from memory.stat when
/// memory.use_hierarchy is set, memory.limit_in_bytes otherwise.
pub fn memory_limit_v1(use_hierarchy: Option<u64>, hierarchical: Option<u64>, limit_in_bytes: Option<u64>) -> (r: Option<u64>)
    ensures
        r == (if (match use_hierarchy { Some(v) => v, None => 0u64 }) != 0 { hierarchical } else { limit_in_bytes }),
{
    let flag: u64 = match use_hierarchy {
        Some(v) => v,
        None => 0,
    };
    if flag != 0 { hierarchical } else { limit_in_bytes }
}

/// Limits above this are the kernel's way of writing "no limit".
pub const NO_LIMIT_ABOVE: u64 = 0x7FFF_FFFF_0000_0000;

/// The memory limit a process has: 0 without a cgroup limit (or with one so large it
/// means none); otherwise the cgroup limit, lowered to the address-space limit when
/// there is one and to the machine's memory when it is known.
pub open spec fn memory_limit_spec(cgroup: Option<u64>, virtual_limit: Option<u64>, machine: u64) -> u64 {
    match cgroup {
        None => 0,
        Some(limit) => if limit > NO_LIMIT_ABOVE {
            0
        } else {
            let a = match virtual_limit {
                Some(v) => if v != 0 && v < limit { v } else { limit },
                None => limit,
            };
            if machine != 0 && machine < a { machine } else { a }
        },
    }
}

/// The memory limit law: with a cgroup limit that means one, the limit is the least of
/// that limit, a nonzero address-space limit and the machine's memory when known: never
/// more than any of them, and one of them. Without one it is 0.
pub proof fn lemma_memory_limit(cgroup: Option<u64>, virtual_limit: Option<u64>, machine: u64)
    ensures
        ({
            let r = memory_limit_spec(cgroup, virtual_limit, machine);
            &&& (cgroup is None || cgroup.unwrap() > NO_LIMIT_ABOVE) ==> r == 0
            &&& cgroup is Some && cgroup.unwrap() <= NO_LIMIT_ABOVE ==> ({
                let l = cgroup.unwrap();
                &&& r <= l
                &&& (virtual_limit is Some && virtual_limit.unwrap() != 0 ==> r <= virtual_limit.unwrap())
                &&& (machine != 0 ==> r <= machine)
                &&& (r == l || virtual_limit == Some(r) || r == machine)
            })
        }),
{
}

pub fn memory_limit(cgroup: Option<u64>, virtual_limit: Option<u64>, machine: u64) -> (r: u64)
    ensures
        r == memory_limit_spec(cgroup, virtual_limit, machine),
        machine != 0 ==> r <= machine,
        virtual_limit is Some && virtual_limit.unwrap() != 0 ==> r <= virtual_limit.unwrap(),
        cgroup matches Some(l) ==> r <= l,
{
    proof { lemma_memory_limit(cgroup, virtual_limit, machine); }
    let limit: u64 = match cgroup {
        None => return 0,
        Some(l) => l,
    };
    if limit > NO_LIMIT_ABOVE {
        return 0;
    }
    let mut result: u64 = limit;
    match virtual_limit {
        Some(v) => {
            if v != 0 && v < result {
                result = v;
            }
        }
        None => {}
    }
    if machine != 0 && machine < result {
        result = machine;
    }
    result
}

/// Whether a page count the C library reported, times the page size, fits `u64`.
pub fn pages_fit(pages: i64, page: u64) -> (r: bool)
    ensures
        r == (pages <= 0 || pages * page <= u64::MAX),
{
    pages <= 0 || (pages as u64).checked_mul(page).is_some()
}

/// Whether the swap figures, scaled by the unit `sysinfo` reports them in (0: bytes),
/// fit `u64`.
pub fn swap_fits(total: u64, free: u64, unit: u32) -> (r: bool)
    ensures
        r == (total * (if unit == 0 { 1 } else { unit as int }) <= u64::MAX
            && free * (if unit == 0 { 1 } else { unit as int }) <= u64::MAX),
{
    let scale: u64 = if unit == 0 { 1 } else { unit as u64 };
    total.checked_mul(scale).is_some() && free.checked_mul(scale).is_some()
}

/// Bytes from a page count the C library reported, with the page size: 0 for no answer.
pub fn pages_bytes(pages: i64, page: u64) -> (r: u64)
    requires
        pages <= 0 || pages * page <= u64::MAX,
    ensures
        r == (if pages > 0 { pages * page } else { 0 }),
{
    if pages > 0 {
        proof {
            assert(pages as u64 * page == pages * page);
        }
        pages as u64 * page
    } else {
        0
    }
}

/// The physical memory and the memory available, as the topology group answers them:
/// a cgroup limit stands in for the machine, with what the cgroup has not charged
/// available; otherwise the machine's memory and MemAvailable (or the C library's
/// count of free pages), never more than the machine has.
pub open spec fn physical_spec(machine: u64, limit: u64, usage: Option<u64>, available: Option<u64>, free_pages: u64) -> Option<(u64, u64)> {
    if machine == 0 {
        None
    } else if limit != 0 {
        let used = match usage { Some(u) => u, None => 0u64 };
        let rest = if used >= limit { 0 } else { limit - used };
        Some((limit, rest as u64))
    } else {
        let a = match available { Some(v) => v, None => free_pages };
        Some((machine, if a <= machine { a } else { machine }))
    }
}

/// The physical-memory law: nothing without the machine's memory; a cgroup limit stands
/// for the memory, and available is what the cgroup has not charged; otherwise the
/// machine's memory, and available is the kernel's answer (or the free pages) held to
/// it. Available is never more than the memory.
pub proof fn lemma_physical(machine: u64, limit: u64, usage: Option<u64>, available: Option<u64>, free_pages: u64)
    ensures
        physical_spec(machine, limit, usage, available, free_pages) is None <==> machine == 0,
        physical_spec(machine, limit, usage, available, free_pages) matches Some((total, avail)) ==> avail <= total
            && (limit != 0 ==> total == limit && (match usage {
                Some(u) => if u < limit { avail + u == limit } else { avail == 0 },
                None => avail == limit,
            }))
            && (limit == 0 ==> total == machine && (match available {
                Some(v) => avail == vstd::math::min(v as int, machine as int),
                None => avail == vstd::math::min(free_pages as int, machine as int),
            })),
{
}

pub fn physical_memory(machine: u64, limit: u64, usage: Option<u64>, available: Option<u64>, free_pages: u64) -> (r: Option<(u64, u64)>)
    ensures
        r matches Some((total, avail)) ==> avail <= total,
        r == physical_spec(machine, limit, usage, available, free_pages),
{
    if machine == 0 {
        return None;
    }
    if limit != 0 {
        let used: u64 = match usage {
            Some(u) => u,
            None => 0,
        };
        return Some((limit, limit.saturating_sub(used)));
    }
    let a: u64 = match available {
        Some(v) => v,
        None => free_pages,
    };
    Some((machine, if a <= machine { a } else { machine }))
}

/// The swap space and the swap available: the kernel's totals scaled by its unit (a
/// unit of 0 meaning bytes), lowered to a cgroup's swap limit and what it has not
/// charged, and never more available than there is.
pub open spec fn swap_spec(total: u64, free: u64, unit: u32, cgroup: Option<(u64, u64)>) -> (u64, u64) {
    let u: int = if unit == 0 { 1 } else { unit as int };
    let t: int = total * u;
    let a: int = free * u;
    let t2: int = match cgroup {
        Some((limit, used)) => if t <= limit { t } else { limit as int },
        None => t,
    };
    let a2: int = match cgroup {
        Some((limit, used)) => if used >= limit { 0 } else if a <= limit - used { a } else { limit - used },
        None => a,
    };
    (t2 as u64, (if a2 <= t2 { a2 } else { t2 }) as u64)
}

/// The swap law: both kernel figures are scaled by the same unit (0 meaning 1); with
/// no cgroup limit the swap is the scaled total and the available swap the scaled free
/// space, never more than the total; a cgroup lowers the total to its limit and the
/// available swap to what it has not charged.
pub proof fn lemma_swap(total: u64, free: u64, unit: u32, cgroup: Option<(u64, u64)>)
    requires
        total * (if unit == 0 { 1 } else { unit as int }) <= u64::MAX,
        free * (if unit == 0 { 1 } else { unit as int }) <= u64::MAX,
    ensures
        ({
            let u: int = if unit == 0 { 1 } else { unit as int };
            let r = swap_spec(total, free, unit, cgroup);
            &&& r.1 <= r.0
            &&& r.1 <= free * u
            &&& cgroup is None ==> r.0 == total * u && r.1 == vstd::math::min(free * u, total * u)
            &&& cgroup matches Some((limit, used)) ==> ({
                &&& r.0 == vstd::math::min(total * u, limit as int)
                &&& used >= limit ==> r.1 == 0
                &&& used < limit ==> r.1 == vstd::math::min(vstd::math::min(free * u, limit - used), r.0 as int)
            })
        }),
{
}

pub fn swap_memory(total: u64, free: u64, unit: u32, cgroup: Option<(u64, u64)>) -> (r: (u64, u64))
    requires
        total * (if unit == 0 { 1 } else { unit as int }) <= u64::MAX,
        free * (if unit == 0 { 1 } else { unit as int }) <= u64::MAX,
    ensures
        r == swap_spec(total, free, unit, cgroup),
        r.1 <= r.0,
        cgroup is None ==> r.0 == total * (if unit == 0 { 1 } else { unit as int })
            && r.1 == vstd::math::min(free * (if unit == 0 { 1 } else { unit as int }), total * (if unit == 0 { 1 } else { unit as int })),
{
    proof { lemma_swap(total, free, unit, cgroup); }
    let u: u64 = if unit == 0 { 1 } else { unit as u64 };
    let mut t: u64 = total * u;
    let mut a: u64 = free * u;
    match cgroup {
        Some((limit, used)) => {
            if t > limit {
                t = limit;
            }
            let rest: u64 = limit.saturating_sub(used);
            if a > rest {
                a = rest;
            }
        }
        None => {}
    }
    (t, if a <= t { a } else { t })
}

/// CPUs a quota of `quota` per `period` gives: none for a zero quota or period, at
/// least one, and otherwise the quota divided by the period, rounded up and capped at `u32::MAX`.
pub open spec fn cpu_limit_spec(quota: u64, period: u64) -> Option<u32> {
    if quota == 0 || period == 0 {
        None
    } else if quota <= period {
        Some(1)
    } else {
        let n: int = (quota + period - 1) / (period as int);
        Some((if n > u32::MAX { u32::MAX as int } else { n }) as u32)
    }
}

/// The CPU-quota law: a quota gives the fewest whole CPUs whose time covers it per
/// period (at least one, capped at `u32::MAX`); no quota or no period gives none.
pub proof fn lemma_cpu_limit(quota: u64, period: u64)
    ensures
        cpu_limit_spec(quota, period) is None <==> (quota == 0 || period == 0),
        cpu_limit_spec(quota, period) matches Some(n) ==> n >= 1
            && (n < u32::MAX ==> (n - 1) * period < quota <= n * period || (n == 1 && quota <= period))
            && (n == u32::MAX ==> (u32::MAX - 1) * period < quota),
{
    if quota != 0 && period != 0 && quota > period {
        let q = quota as int;
        let p = period as int;
        let n = (q + p - 1) / p;
        vstd::arithmetic::div_mod::lemma_fundamental_div_mod(q + p - 1, p);
        let r = (q + p - 1) % p;
        assert(q + p - 1 == p * n + r);
        assert((n - 1) * p < q <= n * p && n >= 1) by (nonlinear_arith)
            requires
                q + p - 1 == p * n + r,
                0 <= r < p,
                q > p,
                p > 0;
        if n >= u32::MAX {
            assert((u32::MAX - 1) * p <= (n - 1) * p) by (nonlinear_arith)
                requires
                    n >= u32::MAX,
                    p > 0;
        }
    }
}

pub fn cpu_limit(quota: u64, period: u64) -> (r: Option<u32>)
    ensures
        r == cpu_limit_spec(quota, period),
        r matches Some(n) ==> n >= 1 && (n < u32::MAX && quota > period ==> (n - 1) * period < quota <= n * period),
{
    proof { lemma_cpu_limit(quota, period); }
    if quota == 0 || period == 0 {
        return None;
    }
    if quota <= period {
        return Some(1);
    }
    let whole: u64 = quota / period;
    proof {
        vstd::arithmetic::div_mod::lemma_fundamental_div_mod(quota as int, period as int);
        if quota % period != 0 {
            assert(whole < u64::MAX) by (nonlinear_arith)
                requires
                    quota == period * whole + quota % period,
                    quota % period < period,
                    quota % period > 0,
                    quota <= u64::MAX,
                    whole >= 0,
            {
            }
        }
    }
    let n: u64 = if quota % period == 0 { whole } else { whole + 1 };
    proof {
        let q = quota as int;
        let p = period as int;
        let w = whole as int;
        vstd::arithmetic::div_mod::lemma_fundamental_div_mod(q, p);
        vstd::arithmetic::mul::lemma_mul_is_commutative(w, p);
        vstd::arithmetic::mul::lemma_mul_is_distributive_add_other_way(p, w, 1);
        let m = q % p;
        if m == 0 {
            vstd::arithmetic::div_mod::lemma_fundamental_div_mod_converse(q + p - 1, p, w, p - 1);
        } else {
            vstd::arithmetic::div_mod::lemma_fundamental_div_mod_converse(q + p - 1, p, w + 1, m - 1);
        }
    }
    Some(if n > u32::MAX as u64 { u32::MAX } else { n as u32 })
}

/// The bytes of "max".
pub open spec fn max_word() -> Seq<u8> {
    seq![109u8, 97u8, 120u8]
}

/// What cpu.max of the unified hierarchy says: the quota and the period, `None` for
/// "max" (no limit), a missing field or one that does not parse.
pub open spec fn cpu_max_file_spec(s: Seq<u8>) -> Option<(u64, u64)> {
    match (nth_field_spec(s, 0, 0), nth_field_spec(s, 0, 1)) {
        (Some(q), Some(p)) => if s.subrange(q.0, q.1) == max_word() {
            None
        } else {
            match (parse_u64_spec(s.subrange(q.0, q.1)), parse_u64_spec(s.subrange(p.0, p.1))) {
                (Some((a, _)), Some((b, _))) => Some((a, b)),
                _ => None,
            }
        },
        _ => None,
    }
}

pub fn cpu_max_file(file: &[u8]) -> (r: Option<(u64, u64)>)
    ensures
        r == cpu_max_file_spec(file@),
{
    let q: (usize, usize) = match nth_field(file, 0, 0) {
        Some(x) => x,
        None => return None,
    };
    let p: (usize, usize) = match nth_field(file, 0, 1) {
        Some(x) => x,
        None => return None,
    };
    let word: [u8; 3] = [109, 97, 120];
    assert(word@ == max_word());
    if range_equals(file, q.0, q.1, word.as_slice()) {
        return None;
    }
    let quota: u64 = match parse_u64(vstd::slice::slice_subrange(file, q.0, q.1)) {
        Some((v, _, _)) => v,
        None => return None,
    };
    let period: u64 = match parse_u64(vstd::slice::slice_subrange(file, p.0, p.1)) {
        Some((v, _, _)) => v,
        None => return None,
    };
    Some((quota, period))
}

/// The CPU limit of a version 1 cgroup, from cpu.cfs_quota_us and cpu.cfs_period_us
/// (a quota of -1 does not parse: no limit).
pub fn cpu_limit_v1(quota: Option<u64>, period: Option<u64>) -> (r: Option<u32>)
    ensures
        r == (match (quota, period) { (Some(q), Some(p)) => cpu_limit_spec(q, p), _ => None::<u32> }),
{
    match (quota, period) {
        (Some(q), Some(p)) => cpu_limit(q, p),
        _ => None,
    }
}

/// The CPU limit of a unified-hierarchy cgroup, from its cpu.max.
pub fn cpu_limit_v2(file: &[u8]) -> (r: Option<u32>)
    ensures
        r == (match cpu_max_file_spec(file@) { Some((q, p)) => cpu_limit_spec(q, p), None => None::<u32> }),
{
    match cpu_max_file(file) {
        Some((q, p)) => cpu_limit(q, p),
        None => None,
    }
}

/// The highest CPU a range of a CPU list names: its second end, or its first when
/// the second is missing or does not parse.
pub open spec fn range_last(segment: Seq<u8>) -> Option<u64> {
    let parts = split(segment, 45);
    let first = match parse_u64_spec(parts[0]) { Some((v, _)) => Some(v), None => None::<u64> };
    let second = if parts.len() >= 2 {
        match parse_u64_spec(parts[1]) { Some((v, _)) => Some(v), None => None::<u64> }
    } else {
        None::<u64>
    };
    if second is Some { second } else { first }
}

/// The larger of a highest CPU so far and one more.
pub open spec fn higher(h: Option<u64>, l: Option<u64>) -> Option<u64> {
    match l {
        Some(v) => match h {
            Some(x) => Some(if x >= v { x } else { v }),
            None => Some(v),
        },
        None => h,
    }
}

/// The highest CPU of a list of ranges.
pub open spec fn highest(ranges: Seq<Seq<u8>>) -> Option<u64>
    decreases ranges.len(),
{
    if ranges.len() == 0 { None } else { higher(highest(ranges.drop_last()), range_last(ranges.last())) }
}

/// The highest CPU a CPU list ("0-3" or "0,2-5") names.
pub open spec fn possible_highest(s: Seq<u8>) -> Option<u64> {
    highest(split(trimmed(s), 44))
}

proof fn lemma_split_unfold(s: Seq<u8>, b: u8)
    ensures
        split(s, b).len() >= 1,
        index_of(s, b) < 0 ==> split(s, b) == seq![s],
        index_of(s, b) >= 0 ==> split(s, b) == seq![s.take(index_of(s, b))].add(split(s.skip(index_of(s, b) + 1), b)),
        split(s, b)[0] == (if index_of(s, b) < 0 { s } else { s.take(index_of(s, b)) }),
{
    lemma_index_of(s, b);
}

/// The highest CPU of one range of a CPU list.
fn segment_last(seg: &[u8]) -> (r: Option<u64>)
    ensures
        r == range_last(seg@),
{
    let len: usize = seg.len();
    let i: usize = find_byte(seg, 0, 45);
    assert(seg@.skip(0) == seg@);
    proof {
        lemma_split_unfold(seg@, 45);
    }
    let first: Option<u64> = match parse_u64(vstd::slice::slice_subrange(seg, 0, i)) {
        Some((v, _, _)) => Some(v),
        None => None,
    };
    proof {
        if i == len {
            assert(seg@.subrange(0, i as int) == seg@);
        } else {
            assert(seg@.subrange(0, i as int) == seg@.take(i as int));
        }
    }
    if i == len {
        return first;
    }
    let j: usize = find_byte(seg, i + 1, 45);
    proof {
        let rest = seg@.skip(i + 1);
        lemma_split_unfold(rest, 45);
        if j == len {
            assert(seg@.subrange(i + 1, j as int) == rest);
        } else {
            assert(seg@.subrange(i + 1, j as int) == rest.take(j - i - 1));
        }
    }
    let second: Option<u64> = match parse_u64(vstd::slice::slice_subrange(seg, i + 1, j)) {
        Some((v, _, _)) => Some(v),
        None => None,
    };
    if second.is_some() { second } else { first }
}

/// The highest CPU a CPU list names, `None` when no range parses.
pub fn cpu_list_highest(bytes: &[u8]) -> (r: Option<u64>)
    ensures
        r == possible_highest(bytes@),
{
    let (start, end) = trim(bytes);
    let t: &[u8] = vstd::slice::slice_subrange(bytes, start, end);
    let len: usize = t.len();
    let mut pos: usize = 0;
    let mut acc: Option<u64> = None;
    let ghost mut done: Seq<Seq<u8>> = Seq::empty();
    assert(t@.skip(0) == t@);
    loop
        invariant
            pos <= len == t@.len(),
            t@ == trimmed(bytes@),
            split(t@, 44) == done.add(split(t@.skip(pos as int), 44)),
            acc == highest(done),
        decreases len - pos,
    {
        let j: usize = find_byte(t, pos, 44);
        let ghost rest: Seq<u8> = t@.skip(pos as int);
        let seg: &[u8] = vstd::slice::slice_subrange(t, pos, j);
        let last: Option<u64> = segment_last(seg);
        proof {
            lemma_split_unfold(rest, 44);
            assert(done.push(seg@).drop_last() == done);
        }
        acc = match last {
            Some(v) => match acc {
                Some(x) => Some(if x >= v { x } else { v }),
                None => Some(v),
            },
            None => acc,
        };
        if j == len {
            proof {
                assert(rest.take(rest.len() as int) == rest);
                assert(seg@ == rest);
                assert(split(t@, 44) == done.push(seg@));
            }
            return acc;
        }
        proof {
            assert(rest.take(j - pos) == seg@);
            assert(rest.skip(j - pos + 1) == t@.skip(j + 1));
            assert(split(t@, 44) == done.push(seg@).add(split(t@.skip(j + 1), 44)));
            done = done.push(seg@);
        }
        pos = j + 1;
    }
}

/// The number of CPUs the machine may have: one more than the highest in
/// /sys/devices/system/cpu/possible, or the C library's configured count when the file
/// says nothing; `None` (an OS error) past `u32::MAX` or without an answer.
pub open spec fn cpu_max_spec(possible: Option<Seq<u8>>, configured: i64) -> Option<u32> {
    let from_file = match possible { Some(s) => possible_highest(s), None => None::<u64> };
    match from_file {
        Some(h) => if h + 1 <= u32::MAX { Some((h + 1) as u32) } else { None },
        None => if configured > 0 && configured <= u32::MAX { Some(configured as u32) } else { None },
    }
}

/// The possible-CPU law: CPUs are numbered from 0, so the count is one more than the
/// highest CPU the list names; the configured count stands in only without a list
/// that parses, and must be positive.
pub proof fn lemma_cpu_max(possible: Option<Seq<u8>>, configured: i64, other: i64)
    ensures
        possible is Some && possible_highest(possible.unwrap()) is Some ==> ({
            let h = possible_highest(possible.unwrap()).unwrap();
            &&& (h < u32::MAX ==> cpu_max_spec(possible, configured) == Some((h + 1) as u32))
            &&& cpu_max_spec(possible, configured) == cpu_max_spec(possible, other)
        }),
        cpu_max_spec(possible, configured) matches Some(n) ==> n >= 1,
{
}

pub fn cpu_max(possible: Option<&[u8]>, configured: i64) -> (r: Option<u32>)
    requires
        match possible { Some(s) => possible_highest(s@) != Some(u64::MAX), None => true },
    ensures
        r == cpu_max_spec(match possible { Some(s) => Some(s@), None => None::<Seq<u8>> }, configured),
{
    let from_file: Option<u64> = match possible {
        Some(s) => cpu_list_highest(s),
        None => None,
    };
    match from_file {
        Some(h) => if h + 1 <= u32::MAX as u64 { Some((h + 1) as u32) } else { None },
        None => if configured > 0 && configured <= u32::MAX as i64 { Some(configured as u32) } else { None },
    }
}

/// The number of set bits of `w`.
pub open spec fn ones(w: u64) -> nat
    decreases w,
{
    if w == 0 { 0 } else { (w % 2) as nat + ones(w / 2) }
}

proof fn lemma_ones_bound(w: u64, k: nat)
    requires
        k <= 64,
        w < vstd::arithmetic::power2::pow2(k),
    ensures
        ones(w) <= k,
    decreases k,
{
    if w != 0 {
        if k == 0 {
            vstd::arithmetic::power2::lemma2_to64();
        } else {
            vstd::arithmetic::power2::lemma_pow2_unfold(k);
            lemma_ones_bound(w / 2, (k - 1) as nat);
        }
    }
}

/// The number of set bits of `w`.
pub fn count_ones(w: u64) -> (r: u32)
    ensures
        r == ones(w),
        r <= 64,
{
    proof {
        vstd::arithmetic::power2::lemma2_to64();
        lemma_ones_bound(w, 64);
    }
    let mut v: u64 = w;
    let mut n: u32 = 0;
    while v != 0
        invariant
            n + ones(v) == ones(w),
            ones(w) <= 64,
        decreases v,
    {
        n = n + (v % 2) as u32;
        v = v / 2;
    }
    n
}

/// The set bits of a CPU mask.
pub open spec fn mask_ones(mask: Seq<u64>) -> nat
    decreases mask.len(),
{
    if mask.len() == 0 { 0 } else { mask_ones(mask.drop_last()) + ones(mask.last()) }
}

/// The number of CPUs a mask of at most 128 words holds.
pub fn mask_count(mask: &[u64]) -> (r: u32)
    requires
        mask@.len() <= 128,
    ensures
        r == mask_ones(mask@),
{
    let mut total: u32 = 0;
    let mut i: usize = 0;
    while i < mask.len()
        invariant
            i <= mask@.len() <= 128,
            total == mask_ones(mask@.take(i as int)),
            total <= 64 * i,
        decreases mask@.len() - i,
    {
        assert(mask@.take(i as int + 1).drop_last() == mask@.take(i as int));
        let c: u32 = count_ones(mask[i]);
        total = total + c;
        i = i + 1;
    }
    assert(mask@.take(mask@.len() as int) == mask@);
    total
}

/// The CPUs a process may run on: those of its affinity mask, or the online CPUs
/// when the mask is unknown or empty; never more than the cgroup's CPU limit and
/// never fewer than one. `None` (an OS error) when neither count is known.
pub open spec fn cpu_count_spec(mask: Option<u32>, online: i64, limit: Option<u32>) -> Option<u32> {
    let counted: u32 = match mask { Some(c) => c, None => 0 };
    if counted == 0 && online <= 0 {
        None
    } else {
        let count: u32 = if counted != 0 { counted } else { online as u32 };
        let bounded: u32 = match limit { Some(l) => if l < count { l } else { count }, None => count };
        Some(if bounded >= 1 { bounded } else { 1 })
    }
}

/// The CPU count law: a nonzero affinity count decides, and the online count then
/// plays no part; the online count stands in only when the mask count is 0 or unknown.
/// Either way the count is lowered to the cgroup's limit, never below one, and `None`
/// comes only when neither count is known.
pub proof fn lemma_cpu_count(mask: Option<u32>, online: i64, limit: Option<u32>, other_online: i64)
    ensures
        ({
            let c: u32 = match mask { Some(c) => c, None => 0 };
            let base: u32 = if c != 0 { c } else { online as u32 };
            &&& cpu_count_spec(mask, online, limit) is None <==> (c == 0 && online <= 0)
            &&& cpu_count_spec(mask, online, limit) matches Some(n) ==> ({
                &&& n >= 1
                &&& n <= base || n == 1
                &&& (limit matches Some(l) ==> n <= l || n == 1)
                &&& (n == base || n == 1 || limit == Some(n))
                &&& (limit is None && base >= 1 ==> n == base)
                &&& (limit is Some && 1 <= base <= limit.unwrap() ==> n == base)
                &&& (limit is Some && 1 <= limit.unwrap() <= base ==> n == limit.unwrap())
            })
            &&& c != 0 ==> cpu_count_spec(mask, online, limit) == cpu_count_spec(mask, other_online, limit)
        }),
{
}

pub fn cpu_count(mask: Option<u32>, online: i64, limit: Option<u32>) -> (r: Option<u32>)
    ensures
        r == cpu_count_spec(mask, online, limit),
        mask is Some && mask.unwrap() != 0 ==> r is Some && 1 <= r.unwrap() <= mask.unwrap()
            && (limit is Some && limit.unwrap() >= 1 ==> r.unwrap() <= limit.unwrap())
            && (limit is None ==> r.unwrap() == mask.unwrap())
            && (limit is Some && mask.unwrap() <= limit.unwrap() ==> r.unwrap() == mask.unwrap()),
{
    proof { lemma_cpu_count(mask, online, limit, online); }
    let mut count: u32 = match mask {
        Some(c) => c,
        None => 0,
    };
    if count == 0 {
        if online > 0 {
            count = online as u32;
        } else {
            return None;
        }
    }
    match limit {
        Some(l) => {
            if l < count {
                count = l;
            }
        }
        None => {}
    }
    Some(if count >= 1 { count } else { 1 })
}

/// The index of the first line that starts with `prefix`.
pub open spec fn first_line_with(lines: Seq<Seq<u8>>, prefix: Seq<u8>) -> Option<int> {
    if exists|k: int| 0 <= k < lines.len() && starts_with_spec(#[trigger] lines[k], prefix) {
        Some(choose|k: int| 0 <= k < lines.len() && starts_with_spec(#[trigger] lines[k], prefix)
            && forall|j: int| 0 <= j < k ==> !starts_with_spec(#[trigger] lines[j], prefix))
    } else {
        None
    }
}

/// The views of a list of lines.
pub open spec fn views(lines: Seq<Vec<u8>>) -> Seq<Seq<u8>> {
    lines.map_values(|l: Vec<u8>| l@)
}

/// The first of `lines` that starts with `prefix`.
pub fn find_line(lines: &Vec<Vec<u8>>, prefix: &[u8]) -> (r: Option<usize>)
    ensures
        match r {
            Some(k) => first_line_with(views(lines@), prefix@) == Some(k as int) && k < lines@.len()
                && starts_with_spec(lines@[k as int]@, prefix@),
            None => first_line_with(views(lines@), prefix@) is None,
        },
{
    let ghost v: Seq<Seq<u8>> = views(lines@);
    let mut k: usize = 0;
    while k < lines.len()
        invariant
            k <= lines@.len(),
            v == views(lines@),
            v.len() == lines@.len(),
            forall|j: int| 0 <= j < k ==> !starts_with_spec(#[trigger] v[j], prefix@),
        decreases lines@.len() - k,
    {
        if starts_with(lines[k].as_slice(), prefix) {
            proof {
                assert(v[k as int] == lines@[k as int]@);
                let w = choose|w: int| 0 <= w < v.len() && starts_with_spec(#[trigger] v[w], prefix@)
                    && forall|j: int| 0 <= j < w ==> !starts_with_spec(#[trigger] v[j], prefix@);
                assert(0 <= k < v.len() && starts_with_spec(v[k as int], prefix@)
                    && forall|j: int| 0 <= j < k ==> !starts_with_spec(#[trigger] v[j], prefix@));
                if w < k {
                } else if w > k {
                    assert(!starts_with_spec(v[k as int], prefix@));
                }
            }
            return Some(k);
        }
        assert(v[k as int] == lines@[k as int]@);
        k = k + 1;
    }
    None
}

/// The bytes of "MemAvailable:".
pub open spec fn mem_available_key() -> Seq<u8> {
    seq![77u8, 101u8, 109u8, 65u8, 118u8, 97u8, 105u8, 108u8, 97u8, 98u8, 108u8, 101u8, 58u8]
}

/// The bytes of "TracerPid:".
pub open spec fn tracer_key() -> Seq<u8> {
    seq![84u8, 114u8, 97u8, 99u8, 101u8, 114u8, 80u8, 105u8, 100u8, 58u8]
}

/// The memory available that /proc/meminfo reports.
pub fn mem_available(lines: &Vec<Vec<u8>>) -> (r: Option<u64>)
    ensures
        r == (match first_line_with(views(lines@), mem_available_key()) {
            Some(k) => parse_size_spec(lines@[k]@.skip(13)),
            None => None::<u64>,
        }),
{
    let key: [u8; 13] = [77, 101, 109, 65, 118, 97, 105, 108, 97, 98, 108, 101, 58];
    assert(key@ == mem_available_key());
    match find_line(lines, key.as_slice()) {
        Some(k) => {
            let line: &Vec<u8> = &lines[k];
            proof {
                assert(views(lines@)[k as int] == lines@[k as int]@);
            }
            parse_size(vstd::slice::slice_subrange(line.as_slice(), 13, line.len()))
        }
        None => None,
    }
}

/// Whether /proc/self/status says a tracer is attached: `None` when it has no TracerPid line.
pub fn traced(lines: &Vec<Vec<u8>>) -> (r: Option<bool>)
    ensures
        r == (match first_line_with(views(lines@), tracer_key()) {
            Some(k) => Some(match parse_u64_spec(lines@[k]@.skip(10)) { Some((v, _)) => v != 0, None => false }),
            None => None::<bool>,
        }),
{
    let key: [u8; 10] = [84, 114, 97, 99, 101, 114, 80, 105, 100, 58];
    assert(key@ == tracer_key());
    match find_line(lines, key.as_slice()) {
        Some(k) => {
            let line: &Vec<u8> = &lines[k];
            proof {
                assert(views(lines@)[k as int] == lines@[k as int]@);
            }
            match parse_u64(vstd::slice::slice_subrange(line.as_slice(), 10, line.len())) {
                Some((v, _, _)) => Some(v != 0),
                None => Some(false),
            }
        }
        None => None,
    }
}

/// The value of one field of memory.stat: the number after the first line that starts with `field`.
pub fn stat_field(lines: &Vec<Vec<u8>>, field: &[u8]) -> (r: Option<u64>)
    ensures
        r == (match first_line_with(views(lines@), field@) {
            Some(k) => match parse_u64_spec(lines@[k]@.skip(field@.len() as int)) { Some((v, _)) => Some(v), None => None::<u64> },
            None => None::<u64>,
        }),
{
    match find_line(lines, field) {
        Some(k) => {
            let line: &Vec<u8> = &lines[k];
            proof {
                assert(views(lines@)[k as int] == lines@[k as int]@);
            }
            match parse_u64(vstd::slice::slice_subrange(line.as_slice(), field.len(), line.len())) {
                Some((v, _, _)) => Some(v),
                None => None,
            }
        }
        None => None,
    }
}

/// What a diagnostic message leaves in a caller's buffer of `capacity` bytes: nothing
/// for an empty buffer, otherwise as much of the text as fits before a terminator.
pub open spec fn message_spec(capacity: int, text: Seq<u8>) -> Seq<u8> {
    if capacity == 0 {
        Seq::empty()
    } else {
        text.take(if text.len() <= capacity - 1 { text.len() as int } else { capacity - 1 }).push(0)
    }
}

pub fn message(capacity: usize, text: &[u8]) -> (r: Vec<u8>)
    ensures
        r@ == message_spec(capacity as int, text@),
{
    let mut out: Vec<u8> = Vec::new();
    if capacity == 0 {
        return out;
    }
    let n: usize = if text.len() <= capacity - 1 { text.len() } else { capacity - 1 };
    let mut i: usize = 0;
    while i < n
        invariant
            n <= text@.len(),
            i <= n,
            out@ == text@.take(i as int),
        decreases n - i,
    {
        out.push(text[i]);
        i = i + 1;
        assert(out@ =~= text@.take(i as int));
    }
    out.push(0);
    out
}

pub const PT_LOAD: u32 = 1;
pub const PT_NOTE: u32 = 4;
pub const PT_GNU_EH_FRAME: u32 = 0x6474e550;
pub const NT_GNU_BUILD_ID: u32 = 3;

/// One loaded object as the dynamic loader reports it: its load bias and program headers.
#[derive(Clone, Debug)]
pub struct LoadedImage {
    pub base: usize,
    pub headers: Vec<ProgramHeader>,
}

/// Whether every segment of an image, placed at its bias, lies inside the address space.
pub open spec fn placed(image: LoadedImage) -> bool {
    forall|i: int| 0 <= i < image.headers@.len() ==>
        image.base + (#[trigger] image.headers@[i]).virtual_address + image.headers@[i].memory_size <= usize::MAX
}

/// Whether a loadable segment of an image at `base` holds `address`.
pub open spec fn holds(base: int, h: ProgramHeader, address: int) -> bool {
    h.kind == PT_LOAD && base + h.virtual_address <= address < base + h.virtual_address + h.memory_size
}

/// The unwind tables of the image holding `address`: the first loadable segment that
/// holds it is the text, the last `PT_GNU_EH_FRAME` header the table index. `None`
/// for an image without headers, below the address, or without either.
#[verifier::opaque]
pub open spec fn unwind_in_spec(image: LoadedImage, address: int) -> Option<UnwindInfo> {
    let hs = image.headers@;
    if hs.len() == 0 || address < image.base {
        None
    } else if !exists|i: int| 0 <= i < hs.len() && holds(image.base as int, #[trigger] hs[i], address) {
        None
    } else if !exists|i: int| 0 <= i < hs.len() && (#[trigger] hs[i]).kind == PT_GNU_EH_FRAME {
        None
    } else {
        let t = choose|i: int| 0 <= i < hs.len() && holds(image.base as int, #[trigger] hs[i], address)
            && forall|j: int| 0 <= j < i ==> !holds(image.base as int, #[trigger] hs[j], address);
        let e = choose|i: int| 0 <= i < hs.len() && (#[trigger] hs[i]).kind == PT_GNU_EH_FRAME
            && forall|j: int| i < j < hs.len() ==> (#[trigger] hs[j]).kind != PT_GNU_EH_FRAME;
        Some(UnwindInfo {
            base: image.base,
            text_start: (image.base + hs[t].virtual_address) as usize,
            text_length: hs[t].memory_size as usize,
            eh_frame_hdr: (image.base + hs[e].virtual_address) as usize,
            eh_frame_hdr_length: hs[e].memory_size as usize,
            eh_frame: 0,
            eh_frame_length: 0,
        })
    }
}

/// The index of the first loadable segment of `hs`, placed at `base`, holding `address`.
fn first_holding(hs: &Vec<ProgramHeader>, base: usize, address: usize) -> (r: usize)
    requires
        forall|i: int| 0 <= i < hs@.len() ==> base + (#[trigger] hs@[i]).virtual_address + hs@[i].memory_size <= usize::MAX,
    ensures
        r <= hs@.len(),
        forall|j: int| 0 <= j < r ==> !holds(base as int, #[trigger] hs@[j], address as int),
        r < hs@.len() ==> holds(base as int, hs@[r as int], address as int),
{
    let mut t: usize = 0;
    while t < hs.len()
        invariant
            t <= hs@.len(),
            forall|i: int| 0 <= i < hs@.len() ==> base + (#[trigger] hs@[i]).virtual_address + hs@[i].memory_size <= usize::MAX,
            forall|j: int| 0 <= j < t ==> !holds(base as int, #[trigger] hs@[j], address as int),
        decreases hs@.len() - t,
    {
        let h: ProgramHeader = hs[t];
        assert(base + hs@[t as int].virtual_address + hs@[t as int].memory_size <= usize::MAX);
        if h.kind == PT_LOAD && base as u64 + h.virtual_address <= address as u64
            && (address as u64) < base as u64 + h.virtual_address + h.memory_size {
            return t;
        }
        t = t + 1;
    }
    t
}

pub fn unwind_in(image: &LoadedImage, address: usize) -> (r: Option<UnwindInfo>)
    requires
        placed(*image),
    ensures
        r == unwind_in_spec(*image, address as int),
{
    reveal(unwind_in_spec);
    let hs: &Vec<ProgramHeader> = &image.headers;
    let base: usize = image.base;
    if hs.len() == 0 || address < base {
        return None;
    }
    let t: usize = first_holding(hs, base, address);
    if t == hs.len() {
        return None;
    }
    let mut e: usize = hs.len();
    while e > 0 && hs[e - 1].kind != PT_GNU_EH_FRAME
        invariant
            e <= hs@.len(),
            hs == &image.headers,
            forall|j: int| e <= j < hs@.len() ==> (#[trigger] hs@[j]).kind != PT_GNU_EH_FRAME,
        decreases e,
    {
        e = e - 1;
    }
    if e == 0 {
        return None;
    }
    let e: usize = e - 1;
    let text: ProgramHeader = hs[t];
    let table: ProgramHeader = hs[e];
    assert(image.base + hs@[t as int].virtual_address + hs@[t as int].memory_size <= usize::MAX);
    assert(image.base + hs@[e as int].virtual_address + hs@[e as int].memory_size <= usize::MAX);
    proof {
        let tc = choose|i: int| 0 <= i < hs@.len() && holds(image.base as int, #[trigger] hs@[i], address as int)
            && forall|j: int| 0 <= j < i ==> !holds(image.base as int, #[trigger] hs@[j], address as int);
        assert(holds(image.base as int, hs@[t as int], address as int));
        if tc < t {
        } else if tc > t {
            assert(!holds(image.base as int, hs@[t as int], address as int));
        }
        let ec = choose|i: int| 0 <= i < hs@.len() && (#[trigger] hs@[i]).kind == PT_GNU_EH_FRAME
            && forall|j: int| i < j < hs@.len() ==> (#[trigger] hs@[j]).kind != PT_GNU_EH_FRAME;
        assert(hs@[e as int].kind == PT_GNU_EH_FRAME);
        if ec < e {
            assert(hs@[e as int].kind != PT_GNU_EH_FRAME);
        } else if ec > e {
        }
    }
    Some(UnwindInfo {
        base,
        text_start: base + text.virtual_address as usize,
        text_length: text.memory_size as usize,
        eh_frame_hdr: base + table.virtual_address as usize,
        eh_frame_hdr_length: table.memory_size as usize,
        eh_frame: 0,
        eh_frame_length: 0,
    })
}

/// What a loaded object answers for `address`: its unwind tables when its segments
/// lie inside the address space; an object whose segments would wrap around it holds
/// nothing.
pub open spec fn unwind_found(image: LoadedImage, address: int) -> Option<UnwindInfo> {
    if placed(image) { unwind_in_spec(image, address) } else { None }
}

/// Whether every segment of an image, placed at its bias, lies inside the address space.
pub fn is_placed(image: &LoadedImage) -> (r: bool)
    ensures
        r == placed(*image),
{
    let mut i: usize = 0;
    while i < image.headers.len()
        invariant
            i <= image.headers@.len(),
            forall|k: int| 0 <= k < i ==> image.base + (#[trigger] image.headers@[k]).virtual_address
                + image.headers@[k].memory_size <= usize::MAX,
        decreases image.headers@.len() - i,
    {
        let h: ProgramHeader = image.headers[i];
        if image.base as u128 + h.virtual_address as u128 + h.memory_size as u128 > usize::MAX as u128 {
            return false;
        }
        i = i + 1;
    }
    true
}

/// The unwind tables for `address`: the first loaded object, in the loader's order,
/// that holds it; `None` (not found) when none does.
pub fn unwind_search(images: &Vec<LoadedImage>, address: usize) -> (r: Option<UnwindInfo>)
    ensures
        r is Some ==> exists|k: int| 0 <= k < images@.len() && r == unwind_found(#[trigger] images@[k], address as int)
            && forall|j: int| 0 <= j < k ==> unwind_found(#[trigger] images@[j], address as int) is None,
        r is None ==> forall|k: int| 0 <= k < images@.len() ==> unwind_found(#[trigger] images@[k], address as int) is None,
{
    let mut k: usize = 0;
    while k < images.len()
        invariant
            k <= images@.len(),
            forall|j: int| 0 <= j < k ==> unwind_found(#[trigger] images@[j], address as int) is None,
        decreases images@.len() - k,
    {
        if is_placed(&images[k]) {
            let found: Option<UnwindInfo> = unwind_in(&images[k], address);
            if found.is_some() {
                return found;
            }
        }
        k = k + 1;
    }
    None
}

/// The little-endian 32-bit value at `i` of `s`.
pub open spec fn le32(s: Seq<u8>, i: int) -> int {
    s[i] + s[i + 1] * 256 + s[i + 2] * 65536 + s[i + 3] * 16777216
}

/// `n` rounded up to a multiple of `align`.
pub open spec fn round_up(n: int, align: int) -> int {
    ((n + align - 1) / align) * align
}

/// The bytes of "GNU" and its terminator.
pub open spec fn gnu_name() -> Seq<u8> {
    seq![71u8, 78u8, 85u8, 0u8]
}

/// The GNU build-id note among the notes of a note segment `s` from `offset` on,
/// each a 12-byte header (name size, descriptor size, type) followed by the name and
/// the descriptor, each padded to `align`: the descriptor's offset and length.
pub open spec fn note_at(s: Seq<u8>, align: int, offset: int) -> Option<(int, int)>
    decreases s.len() - offset,
{
    if offset < 0 || offset + 12 > s.len() || align <= 0 {
        None
    } else {
        let namesz = le32(s, offset);
        let descsz = le32(s, offset + 4);
        let kind = le32(s, offset + 8);
        let name = offset + 12;
        if namesz == 4 && kind == NT_GNU_BUILD_ID && name + 4 <= s.len() && s.subrange(name, name + 4) == gnu_name() {
            Some((name + round_up(namesz, align), descsz))
        } else {
            let next = offset + 12 + round_up(namesz, align) + round_up(descsz, align);
            if next > s.len() { None } else { note_at(s, align, next) }
        }
    }
}

proof fn lemma_round_up(n: int, align: int)
    requires
        n >= 0,
        align > 0,
    ensures
        n <= round_up(n, align) < n + align,
{
    vstd::arithmetic::div_mod::lemma_fundamental_div_mod(n + align - 1, align);
    vstd::arithmetic::mul::lemma_mul_is_commutative((n + align - 1) / align, align);
}

/// `n` rounded up to a multiple of `align`.
fn round_up_wide(n: u32, align: u64) -> (r: u128)
    requires
        align > 0,
    ensures
        r == round_up(n as int, align as int),
{
    let a: u128 = align as u128;
    let total: u128 = n as u128 + a - 1;
    let q: u128 = total / a;
    proof {
        lemma_round_up(n as int, align as int);
        vstd::arithmetic::div_mod::lemma_fundamental_div_mod(total as int, a as int);
        vstd::arithmetic::mul::lemma_mul_is_commutative(q as int, a as int);
    }
    q * a
}

/// The little-endian 32-bit value at `i` of `s`.
fn read32(s: &[u8], i: usize) -> (r: u32)
    requires
        i + 4 <= s@.len(),
    ensures
        r == le32(s@, i as int),
{
    s[i] as u32 + s[i + 1] as u32 * 256 + s[i + 2] as u32 * 65536 + s[i + 3] as u32 * 16777216
}

/// Finds the GNU build-id note in the bytes of one note segment aligned to `align`.
pub fn find_note(s: &[u8], align: u64) -> (r: Option<(u128, u32)>)
    requires
        align > 0,
    ensures
        match r {
            Some((d, n)) => note_at(s@, align as int, 0) == Some((d as int, n as int)) && d < 0x4_0000_0000_0000_0000,
            None => note_at(s@, align as int, 0) is None,
        },
{
    let len: usize = s.len();
    let mut offset: usize = 0;
    let gnu: [u8; 4] = [71, 78, 85, 0];
    assert(gnu@ == gnu_name());
    loop
        invariant
            offset <= len == s@.len(),
            align > 0,
            gnu@ == gnu_name(),
            note_at(s@, align as int, 0) == note_at(s@, align as int, offset as int),
        decreases len - offset,
    {
        if len - offset < 12 {
            return None;
        }
        let namesz: u32 = read32(s, offset);
        let descsz: u32 = read32(s, offset + 4);
        let kind: u32 = read32(s, offset + 8);
        let name: usize = offset + 12;
        let padded_name: u128 = round_up_wide(namesz, align);
        proof {
            lemma_round_up(namesz as int, align as int);
        }
        if namesz == 4 && kind == NT_GNU_BUILD_ID && len - name >= 4 && range_equals(s, name, name + 4, gnu.as_slice()) {
            return Some((name as u128 + padded_name, descsz));
        }
        let padded_desc: u128 = round_up_wide(descsz, align);
        proof {
            lemma_round_up(namesz as int, align as int);
            lemma_round_up(descsz as int, align as int);
        }
        let next: u128 = offset as u128 + 12 + padded_name + padded_desc;
        if next > len as u128 {
            return None;
        }
        offset = next as usize;
    }
}

/// The module base an object's headers give: its first loadable segment's start.
pub open spec fn module_base_spec(bias: int, headers: Seq<ProgramHeader>) -> Option<int> {
    if exists|i: int| 0 <= i < headers.len() && (#[trigger] headers[i]).kind == PT_LOAD {
        let i = choose|i: int| 0 <= i < headers.len() && (#[trigger] headers[i]).kind == PT_LOAD
            && forall|j: int| 0 <= j < i ==> (#[trigger] headers[j]).kind != PT_LOAD;
        Some(bias + headers[i].virtual_address)
    } else {
        None
    }
}

pub fn module_base(bias: usize, headers: &Vec<ProgramHeader>) -> (r: Option<u128>)
    ensures
        match r {
            Some(b) => module_base_spec(bias as int, headers@) == Some(b as int),
            None => module_base_spec(bias as int, headers@) is None,
        },
{
    let mut i: usize = 0;
    while i < headers.len()
        invariant
            i <= headers@.len(),
            forall|j: int| 0 <= j < i ==> (#[trigger] headers@[j]).kind != PT_LOAD,
        decreases headers@.len() - i,
    {
        if headers[i].kind == PT_LOAD {
            proof {
                let c = choose|k: int| 0 <= k < headers@.len() && (#[trigger] headers@[k]).kind == PT_LOAD
                    && forall|j: int| 0 <= j < k ==> (#[trigger] headers@[j]).kind != PT_LOAD;
                assert(headers@[i as int].kind == PT_LOAD);
                if c < i {
                } else if c > i {
                    assert(headers@[i as int].kind != PT_LOAD);
                }
            }
            return Some(bias as u128 + headers[i].virtual_address as u128);
        }
        i = i + 1;
    }
    None
}

/// The memory of one note segment: where it starts, its alignment, and its bytes.
#[derive(Clone, Debug)]
pub struct NoteSegment {
    pub start: usize,
    pub align: u64,
    pub bytes: Vec<u8>,
}

/// The alignment notes of a segment are padded to: its own, at least 4.
pub open spec fn note_align(align: u64) -> int {
    if align < 4 { 4 } else { align as int }
}

/// Whether a note segment holds a GNU build-id note whose descriptor lies inside
/// the address space.
pub open spec fn usable_note(segment: NoteSegment) -> bool {
    note_at(segment.bytes@, note_align(segment.align), 0) matches Some((d, n)) && segment.start + d <= usize::MAX
}

/// Finds the build id of the module at `base` in one loaded object: the object must
/// start there; then the first of its note segments that holds a GNU build-id note
/// gives the descriptor's address and length. A descriptor that would lie past the
/// address space is no note.
pub fn build_id_in(base: usize, bias: usize, headers: &Vec<ProgramHeader>, notes: &Vec<NoteSegment>) -> (r: Option<(usize, u32)>)
    ensures
        module_base_spec(bias as int, headers@) != Some(base as int) ==> r is None,
        module_base_spec(bias as int, headers@) == Some(base as int)
            ==> (r is None <==> forall|k: int| 0 <= k < notes@.len() ==> !usable_note(#[trigger] notes@[k])),
        r matches Some((address, length)) ==> exists|k: int| 0 <= k < notes@.len()
            && usable_note(#[trigger] notes@[k])
            && (forall|j: int| 0 <= j < k ==> !usable_note(#[trigger] notes@[j]))
            && (note_at(notes@[k].bytes@, note_align(notes@[k].align), 0) matches Some((d, n))
                && address == notes@[k].start + d && length == n),
{
    match module_base(bias, headers) {
        Some(b) => {
            if b != base as u128 {
                return None;
            }
        }
        None => return None,
    }
    let mut k: usize = 0;
    while k < notes.len()
        invariant
            k <= notes@.len(),
            module_base_spec(bias as int, headers@) == Some(base as int),
            forall|j: int| 0 <= j < k ==> !usable_note(#[trigger] notes@[j]),
        decreases notes@.len() - k,
    {
        let segment: &NoteSegment = &notes[k];
        let align: u64 = if segment.align < 4 { 4 } else { segment.align };
        match find_note(segment.bytes.as_slice(), align) {
            Some((d, n)) => {
                let address: u128 = segment.start as u128 + d;
                if address <= usize::MAX as u128 {
                    return Some((address as usize, n));
                }
            }
            None => {}
        }
        k = k + 1;
    }
    None
}

/// What a probe of one page answered: the kernel took the page (never expected), the
/// page faulted, the page was readable, or another failure.
#[derive(Clone, Copy, Debug, PartialEq, Eq, Structural)]
pub enum ProbeAnswer {
    Accepted,
    Fault,
    Readable,
    Failed,
}

/// A readability probe over a range, page by page.
#[derive(Clone, Copy, Debug, PartialEq, Eq, Structural)]
pub struct Probe {
    pub next: usize,
    pub last: usize,
    pub page: usize,
}

/// Starts a probe of `size` bytes at `address`: from the page holding the address to
/// its last byte; `None` (an invalid argument) when the range wraps around.
pub fn probe_start(address: usize, size: usize, page: usize) -> (r: Option<Probe>)
    requires
        size > 0,
        crate::is_pow2(page as nat),
    ensures
        address + (size - 1) > usize::MAX ==> r is None,
        address + (size - 1) <= usize::MAX ==> (r matches Some(p) && p.last == address + (size - 1) && p.page == page
            && p.next == address - address % page),
{
    let last: usize = match address.checked_add(size - 1) {
        Some(l) => l,
        None => return None,
    };
    proof {
        vstd::arithmetic::div_mod::lemma_fundamental_div_mod(address as int, page as int);
        vstd::arithmetic::div_mod::lemma_div_pos_is_pos(address as int, page as int);
        vstd::arithmetic::mul::lemma_mul_nonnegative(page as int, (address / page) as int);
    }
    let next: usize = address - address % page;
    Some(Probe { next, last, page })
}

impl Probe {
    /// Takes the answer for the page at `next`: a fault means unreadable, a readable
    /// page moves on (or ends the probe, readable, past the last byte), anything else is
    /// an OS error. `None` while pages remain.
    pub fn step(&mut self, answer: ProbeAnswer) -> (r: Option<Result<bool, crate::port::Error>>)
        ensures
            answer == ProbeAnswer::Fault ==> r == Some(Ok::<bool, crate::port::Error>(false)),
            (answer == ProbeAnswer::Accepted || answer == ProbeAnswer::Failed)
                ==> r == Some(Err::<bool, crate::port::Error>(crate::port::Error::Os)),
            answer == ProbeAnswer::Readable ==> {
                if old(self).next + old(self).page > old(self).last {
                    r == Some(Ok::<bool, crate::port::Error>(true))
                } else {
                    r is None && *final(self) == (Probe { next: (old(self).next + old(self).page) as usize, ..*old(self) })
                }
            },
    {
        match answer {
            ProbeAnswer::Fault => Some(Ok(false)),
            ProbeAnswer::Accepted => Some(Err(crate::port::Error::Os)),
            ProbeAnswer::Failed => Some(Err(crate::port::Error::Os)),
            ProbeAnswer::Readable => {
                match self.next.checked_add(self.page) {
                    Some(n) => {
                        if n > self.last {
                            Some(Ok(true))
                        } else {
                            self.next = n;
                            None
                        }
                    }
                    None => Some(Ok(true)),
                }
            }
        }
    }
}

/// The larger of two cache sizes.
pub open spec fn larger(a: u64, b: u64) -> u64 {
    if a >= b { a } else { b }
}

/// The largest positive answer among the C library's cache sizes, 0 without one.
pub open spec fn largest_positive(values: Seq<i64>) -> u64
    decreases values.len(),
{
    if values.len() == 0 {
        0
    } else {
        let v = values.last();
        larger(largest_positive(values.drop_last()), if v > 0 { v as u64 } else { 0 })
    }
}

/// The largest-answer law: every positive answer is at most the result, a nonzero
/// result is one of the answers, and the result is 0 exactly when no answer is positive.
pub proof fn lemma_largest_positive(values: Seq<i64>)
    ensures
        forall|i: int| 0 <= i < values.len() && values[i] > 0 ==> values[i] <= largest_positive(values),
        largest_positive(values) != 0 ==> exists|i: int| 0 <= i < values.len() && values[i] == largest_positive(values),
        largest_positive(values) == 0 <==> forall|i: int| 0 <= i < values.len() ==> values[i] <= 0,
    decreases values.len(),
{
    if values.len() > 0 {
        let rest = values.drop_last();
        lemma_largest_positive(rest);
        assert forall|i: int| 0 <= i < values.len() && values[i] > 0 implies values[i] <= largest_positive(values) by {
            if i < rest.len() {
                assert(rest[i] == values[i]);
            }
        }
        if largest_positive(values) != 0 {
            if largest_positive(values) == largest_positive(rest) {
                let i = choose|i: int| 0 <= i < rest.len() && rest[i] == largest_positive(rest);
                assert(values[i] == rest[i]);
            } else {
                assert(values[values.len() - 1] == largest_positive(values));
            }
        }
        if largest_positive(values) == 0 {
            assert forall|i: int| 0 <= i < values.len() implies values[i] <= 0 by {
                if i < rest.len() {
                    assert(rest[i] == values[i]);
                }
            }
        }
    }
}

/// The size a sysfs cache size file gives: its parsed size, 0 when it is missing or does not parse.
pub open spec fn file_size(f: Option<Seq<u8>>) -> u64 {
    match f { Some(f) => match parse_size_spec(f) { Some(x) => x, None => 0 }, None => 0 }
}

/// The same law for the sysfs files: every file's size is at most the result, and a
/// nonzero result is one of them.
pub proof fn lemma_largest_size(files: Seq<Option<Seq<u8>>>)
    ensures
        forall|i: int| 0 <= i < files.len() ==> file_size(files[i]) <= largest_size(files),
        largest_size(files) != 0 ==> exists|i: int| 0 <= i < files.len() && file_size(files[i]) == largest_size(files),
    decreases files.len(),
{
    if files.len() > 0 {
        let rest = files.drop_last();
        lemma_largest_size(rest);
        assert forall|i: int| 0 <= i < files.len() implies file_size(files[i]) <= largest_size(files) by {
            if i < rest.len() {
                assert(rest[i] == files[i]);
            }
        }
        if largest_size(files) != 0 {
            if largest_size(files) == largest_size(rest) {
                let i = choose|i: int| 0 <= i < rest.len() && file_size(rest[i]) == largest_size(rest);
                assert(files[i] == rest[i]);
            } else {
                assert(file_size(files[files.len() - 1]) == largest_size(files));
            }
        }
    }
}

/// The largest size among sysfs cache size files, 0 without one that parses.
pub open spec fn largest_size(files: Seq<Option<Seq<u8>>>) -> u64
    decreases files.len(),
{
    if files.len() == 0 {
        0
    } else {
        larger(largest_size(files.drop_last()), file_size(files.last()))
    }
}

/// The size of the largest cache: the C library's answers first, the sysfs size files
/// when it has none. `None` (an OS error) when it does not fit a `usize`.
pub fn cache_size(values: &[i64], files: &Vec<Option<Vec<u8>>>) -> (r: Option<usize>)
    ensures
        ({
            let views = files@.map_values(|f: Option<Vec<u8>>| match f { Some(v) => Some(v@), None => None::<Seq<u8>> });
            let best = if largest_positive(values@) != 0 { largest_positive(values@) } else { largest_size(views) };
            r == (if best <= usize::MAX { Some(best as usize) } else { None::<usize> })
        }),
        (exists|i: int| 0 <= i < values@.len() && values@[i] > 0) && r is Some ==>
            (forall|i: int| 0 <= i < values@.len() && values@[i] > 0 ==> values@[i] <= r.unwrap())
            && exists|i: int| 0 <= i < values@.len() && values@[i] == r.unwrap(),
        (forall|i: int| 0 <= i < values@.len() ==> values@[i] <= 0) && r is Some ==> ({
            let views = files@.map_values(|f: Option<Vec<u8>>| match f { Some(v) => Some(v@), None => None::<Seq<u8>> });
            &&& forall|i: int| 0 <= i < views.len() ==> file_size(views[i]) <= r.unwrap()
            &&& r.unwrap() != 0 ==> exists|i: int| 0 <= i < views.len() && file_size(views[i]) == r.unwrap()
        }),
{
    proof {
        lemma_largest_positive(values@);
        lemma_largest_size(files@.map_values(|f: Option<Vec<u8>>| match f { Some(v) => Some(v@), None => None::<Seq<u8>> }));
    }
    let ghost views: Seq<Option<Seq<u8>>> = files@.map_values(|f: Option<Vec<u8>>| match f { Some(v) => Some(v@), None => None::<Seq<u8>> });
    let mut best: u64 = 0;
    let mut i: usize = 0;
    while i < values.len()
        invariant
            i <= values@.len(),
            best == largest_positive(values@.take(i as int)),
        decreases values@.len() - i,
    {
        assert(values@.take(i as int + 1).drop_last() == values@.take(i as int));
        let v: i64 = values[i];
        let x: u64 = if v > 0 { v as u64 } else { 0 };
        if x > best {
            best = x;
        }
        i = i + 1;
    }
    assert(values@.take(values@.len() as int) == values@);
    if best == 0 {
        let mut k: usize = 0;
        while k < files.len()
            invariant
                k <= files@.len(),
                views == files@.map_values(|f: Option<Vec<u8>>| match f { Some(v) => Some(v@), None => None::<Seq<u8>> }),
                best == largest_size(views.take(k as int)),
            decreases files@.len() - k,
        {
            assert(views.take(k as int + 1).drop_last() == views.take(k as int));
            let x: u64 = match &files[k] {
                Some(f) => match parse_size(f.as_slice()) {
                    Some(v) => v,
                    None => 0,
                },
                None => 0,
            };
            if x > best {
                best = x;
            }
            k = k + 1;
        }
        assert(views.take(views.len() as int) == views);
    }
    if best as u128 <= usize::MAX as u128 { Some(best as usize) } else { None }
}

/// Capacity of the line reader's buffer: a longer line is skipped, not cut.
pub const LINE_BUFFER: usize = 2048;

/// What one request for the next line leaves: the unread bytes, whether the reader
/// is skipping an oversized line, the line yielded (if any), and whether the file ended.
pub open spec fn plain_step(p: Seq<u8>, eof: bool) -> (Seq<u8>, bool, Option<Seq<u8>>, bool) {
    let i = index_of(p, 10);
    if i >= 0 {
        (p.skip(i + 1), false, Some(p.take(i)), false)
    } else if eof {
        if p.len() == 0 { (p, false, None, true) } else { (Seq::empty(), false, Some(p), false) }
    } else if p.len() == LINE_BUFFER {
        (Seq::empty(), true, None, false)
    } else {
        (p, false, None, false)
    }
}

/// The same, for a reader that may be skipping: the rest of a skipped line is dropped first.
pub open spec fn line_step(p: Seq<u8>, eof: bool, skipping: bool) -> (Seq<u8>, bool, Option<Seq<u8>>, bool) {
    if skipping {
        let i = index_of(p, 10);
        if i >= 0 {
            plain_step(p.skip(i + 1), eof)
        } else if eof {
            (p, true, None, true)
        } else if p.len() == LINE_BUFFER {
            (Seq::empty(), true, None, false)
        } else {
            (p, true, None, false)
        }
    } else {
        plain_step(p, eof)
    }
}

/// What the reader asks of its caller.
#[derive(Debug)]
pub enum LineStep {
    /// The next line, without its terminator.
    Line(Vec<u8>),
    /// Read more of the file into `buffer[filled..]` and pass it to `supply`.
    Read,
    /// The file has no more lines.
    End,
}

/// Streams the lines of a file through a fixed buffer; a line longer than the buffer
/// is skipped rather than cut into a wrong parse. The caller reads the file.
#[derive(Clone, Debug)]
pub struct Lines {
    pub buffer: Vec<u8>,
    pub filled: usize,
    pub start: usize,
    pub eof: bool,
    pub skipping: bool,
}

impl Lines {
    pub open spec fn wf(&self) -> bool {
        self.buffer@.len() == LINE_BUFFER && self.start <= self.filled <= LINE_BUFFER
    }

    /// The bytes read and not yet yielded.
    pub open spec fn pending(&self) -> Seq<u8> {
        self.buffer@.subrange(self.start as int, self.filled as int)
    }

    pub fn new() -> (l: Lines)
        ensures
            l.wf(),
            l.pending() == Seq::<u8>::empty(),
            !l.eof && !l.skipping,
    {
        let mut buffer: Vec<u8> = Vec::new();
        let mut i: usize = 0;
        while i < LINE_BUFFER
            invariant
                i <= LINE_BUFFER,
                buffer@.len() == i,
            decreases LINE_BUFFER - i,
        {
            buffer.push(0);
            i = i + 1;
        }
        Lines { buffer, filled: 0, start: 0, eof: false, skipping: false }
    }

    /// The index of the first line feed in the unread bytes, or `filled`.
    fn newline(&self) -> (r: usize)
        requires
            self.wf(),
        ensures
            self.start <= r <= self.filled,
            r < self.filled ==> index_of(self.pending(), 10) == r - self.start,
            r == self.filled ==> index_of(self.pending(), 10) == -1,
    {
        let mut i: usize = self.start;
        while i < self.filled && self.buffer[i] != 10
            invariant
                self.wf(),
                self.start <= i <= self.filled,
                forall|k: int| self.start <= k < i ==> self.buffer@[k] != 10,
            decreases self.filled - i,
        {
            i = i + 1;
        }
        proof {
            let p = self.pending();
            lemma_index_of(p, 10);
            let x = index_of(p, 10);
            if x >= 0 {
                assert(p[x] == self.buffer@[self.start + x]);
            }
            if i < self.filled {
                assert(p[i - self.start] == self.buffer@[i as int]);
            }
        }
        i
    }

    /// Moves the unread bytes to the front of the buffer.
    fn compact(&mut self)
        requires
            old(self).wf(),
        ensures
            final(self).wf(),
            final(self).start == 0,
            final(self).pending() == old(self).pending(),
            final(self).eof == old(self).eof && final(self).skipping == old(self).skipping,
    {
        let start: usize = self.start;
        let count: usize = self.filled - start;
        let ghost p: Seq<u8> = self.pending();
        let mut i: usize = 0;
        while i < count
            invariant
                self.wf(),
                start == self.start,
                count == self.filled - start,
                i <= count,
                p == old(self).pending(),
                p.len() == count,
                forall|k: int| 0 <= k < i ==> self.buffer@[k] == p[k],
                forall|k: int| start + i <= k < start + count ==> self.buffer@[k] == p[k - start],
                self.eof == old(self).eof && self.skipping == old(self).skipping,
            decreases count - i,
        {
            let b: u8 = self.buffer[start + i];
            self.buffer.set(i, b);
            i = i + 1;
        }
        self.start = 0;
        self.filled = count;
        assert(self.pending() =~= p);
    }

    /// The unread bytes `[from, to)` as a line.
    fn take(&self, from: usize, to: usize) -> (r: Vec<u8>)
        requires
            self.wf(),
            from <= to <= self.filled,
        ensures
            r@ == self.buffer@.subrange(from as int, to as int),
    {
        let mut out: Vec<u8> = Vec::new();
        let mut i: usize = from;
        while i < to
            invariant
                self.wf(),
                from <= i <= to <= self.filled,
                out@ == self.buffer@.subrange(from as int, i as int),
            decreases to - i,
        {
            out.push(self.buffer[i]);
            i = i + 1;
            assert(out@ =~= self.buffer@.subrange(from as int, i as int));
        }
        out
    }

    /// The next step without a skipped line in front.
    fn plain(&mut self) -> (r: LineStep)
        requires
            old(self).wf(),
        ensures
            final(self).wf(),
            final(self).eof == old(self).eof,
            ({
                let (rest, skipping, line, end) = plain_step(old(self).pending(), old(self).eof);
                &&& final(self).pending() == rest
                &&& final(self).skipping == skipping
                &&& match r {
                    LineStep::Line(l) => line == Some(l@) && !end,
                    LineStep::Read => line is None && !end && final(self).filled < LINE_BUFFER,
                    LineStep::End => line is None && end,
                }
            }),
    {
        let ghost p: Seq<u8> = self.pending();
        let nl: usize = self.newline();
        if nl < self.filled {
            let line: Vec<u8> = self.take(self.start, nl);
            assert(line@ == p.take(nl - self.start));
            self.start = nl + 1;
            self.skipping = false;
            assert(self.pending() =~= p.skip(nl - old(self).start + 1));
            return LineStep::Line(line);
        }
        if self.eof {
            if self.start == self.filled {
                self.skipping = false;
                return LineStep::End;
            }
            let line: Vec<u8> = self.take(self.start, self.filled);
            self.start = self.filled;
            self.skipping = false;
            assert(self.pending() =~= Seq::<u8>::empty());
            return LineStep::Line(line);
        }
        self.compact();
        if self.filled == LINE_BUFFER {
            self.start = 0;
            self.filled = 0;
            self.skipping = true;
            assert(self.pending() =~= Seq::<u8>::empty());
        } else {
            self.skipping = false;
        }
        LineStep::Read
    }

    /// The next line, the end of the file, or a request to read more.
    pub fn next(&mut self) -> (r: LineStep)
        requires
            old(self).wf(),
        ensures
            final(self).wf(),
            final(self).eof == old(self).eof,
            ({
                let (rest, skipping, line, end) = line_step(old(self).pending(), old(self).eof, old(self).skipping);
                &&& final(self).pending() == rest
                &&& final(self).skipping == skipping
                &&& match r {
                    LineStep::Line(l) => line == Some(l@) && !end,
                    LineStep::Read => line is None && !end && final(self).filled < LINE_BUFFER,
                    LineStep::End => line is None && end,
                }
            }),
    {
        if !self.skipping {
            return self.plain();
        }
        let ghost p: Seq<u8> = self.pending();
        let nl: usize = self.newline();
        if nl < self.filled {
            self.start = nl + 1;
            self.skipping = false;
            assert(self.pending() =~= p.skip(nl - old(self).start + 1));
            return self.plain();
        }
        if self.eof {
            return LineStep::End;
        }
        self.compact();
        if self.filled == LINE_BUFFER {
            self.start = 0;
            self.filled = 0;
            assert(self.pending() =~= Seq::<u8>::empty());
        }
        LineStep::Read
    }

    /// Takes what a read after `Read` got: no bytes is the end of the file.
    pub fn supply(&mut self, data: &[u8])
        requires
            old(self).wf(),
            old(self).filled + data@.len() <= LINE_BUFFER,
        ensures
            final(self).wf(),
            final(self).skipping == old(self).skipping,
            data@.len() == 0 ==> final(self).eof && final(self).pending() == old(self).pending(),
            data@.len() > 0 ==> final(self).eof == old(self).eof && final(self).pending() == old(self).pending() + data@,
    {
        if data.len() == 0 {
            self.eof = true;
            return;
        }
        let ghost p: Seq<u8> = self.pending();
        let filled: usize = self.filled;
        let mut i: usize = 0;
        while i < data.len()
            invariant
                self.wf(),
                self.filled == filled,
                filled + data@.len() <= LINE_BUFFER,
                i <= data@.len(),
                p == self.buffer@.subrange(self.start as int, filled as int),
                forall|k: int| 0 <= k < i ==> self.buffer@[filled + k] == data@[k],
                self.skipping == old(self).skipping && self.eof == old(self).eof && self.start == old(self).start,
            decreases data@.len() - i,
        {
            self.buffer.set(filled + i, data[i]);
            i = i + 1;
        }
        self.filled = filled + data.len();
        assert(self.pending() =~= p + data@);
    }
}

/// The magic number of the unified cgroup file system.
pub const CGROUP2_MAGIC: u64 = 0x63677270;

/// The cgroup version of /sys/fs/cgroup from its file system type: 0 when it cannot
/// be examined, 2 for the unified hierarchy, 1 otherwise.
pub fn cgroup_version(file_system: Option<u64>) -> (r: u8)
    ensures
        r == (match file_system { None => 0u8, Some(t) => if t == CGROUP2_MAGIC { 2u8 } else { 1u8 } }),
{
    match file_system {
        None => 0,
        Some(t) => if t == CGROUP2_MAGIC { 2 } else { 1 },
    }
}

/// The terminated path of file `name` in `directory`, `None` when it does not fit.
pub fn file_path(directory: &[u8], name: &[u8]) -> (r: Option<Vec<u8>>)
    ensures
        directory@.len() + name@.len() < PATH_CAPACITY ==> (r matches Some(v) && v@ == (directory@ + name@).push(0)),
        directory@.len() + name@.len() >= PATH_CAPACITY ==> r is None,
{
    let mut path: Path = Path::new();
    if !path.set(directory) || !path.push(name) {
        return None;
    }
    let out: Vec<u8> = vstd::slice::slice_to_vec(path.c_str());
    Some(out)
}

/// The bytes of "/sys/devices/system/cpu/cpu0/cache/index".
pub open spec fn cache_directory() -> Seq<u8> {
    seq![47u8, 115u8, 121u8, 115u8, 47u8, 100u8, 101u8, 118u8, 105u8, 99u8, 101u8, 115u8, 47u8, 115u8, 121u8, 115u8,
        116u8, 101u8, 109u8, 47u8, 99u8, 112u8, 117u8, 47u8, 99u8, 112u8, 117u8, 48u8, 47u8, 99u8, 97u8, 99u8, 104u8,
        101u8, 47u8, 105u8, 110u8, 100u8, 101u8, 120u8]
}

/// The terminated sysfs path of attribute `name` of cache `index` of CPU 0.
pub fn cache_path(index: u8, name: &[u8]) -> (r: Option<Vec<u8>>)
    requires
        index < 10,
    ensures
        cache_directory().len() + 1 + name@.len() < PATH_CAPACITY
            ==> (r matches Some(v) && v@ == (cache_directory().push((48 + index) as u8) + name@).push(0)),
        cache_directory().len() + 1 + name@.len() >= PATH_CAPACITY ==> r is None,
{
    let directory: [u8; 41] = [47, 115, 121, 115, 47, 100, 101, 118, 105, 99, 101, 115, 47, 115, 121, 115,
        116, 101, 109, 47, 99, 112, 117, 47, 99, 112, 117, 48, 47, 99, 97, 99, 104,
        101, 47, 105, 110, 100, 101, 120, 48];
    let mut d: [u8; 41] = directory;
    d[40] = 48 + index;
    assert(d@ == cache_directory().push((48 + index) as u8));
    file_path(d.as_slice(), name)
}

/// The bytes of "Data" and of "Unified".
pub open spec fn data_word() -> Seq<u8> {
    seq![68u8, 97u8, 116u8, 97u8]
}

pub open spec fn unified_word() -> Seq<u8> {
    seq![85u8, 110u8, 105u8, 102u8, 105u8, 101u8, 100u8]
}

/// What sysfs says of one cache of CPU 0: its level, type and size files, as far as they could be read.
#[derive(Clone, Debug)]
pub struct CacheEntry {
    pub level: Option<Vec<u8>>,
    pub kind: Option<Vec<u8>>,
    pub size: Option<Vec<u8>>,
}

/// The size a cache entry counts with for a level: a data or unified cache of that
/// level with a size that parses; 0 otherwise.
pub open spec fn entry_size(level: u32, e: CacheEntry) -> u64 {
    match (e.level, e.kind, e.size) {
        (Some(l), Some(k), Some(s)) => if parse_size_spec(l@) == Some(level as u64)
            && (starts_with_spec(k@, data_word()) || starts_with_spec(k@, unified_word())) {
            match parse_size_spec(s@) { Some(v) => v, None => 0 }
        } else {
            0
        },
        _ => 0,
    }
}

/// The largest size among the entries for a level.
pub open spec fn largest_entry(level: u32, entries: Seq<CacheEntry>) -> u64
    decreases entries.len(),
{
    if entries.len() == 0 { 0 } else { larger(largest_entry(level, entries.drop_last()), entry_size(level, entries.last())) }
}

/// The same largest-answer law for the sysfs entries of a level.
pub proof fn lemma_largest_entry(level: u32, entries: Seq<CacheEntry>)
    ensures
        forall|i: int| 0 <= i < entries.len() ==> entry_size(level, entries[i]) <= largest_entry(level, entries),
        largest_entry(level, entries) != 0 ==> exists|i: int| 0 <= i < entries.len() && entry_size(level, entries[i]) == largest_entry(level, entries),
    decreases entries.len(),
{
    if entries.len() > 0 {
        let rest = entries.drop_last();
        lemma_largest_entry(level, rest);
        assert forall|i: int| 0 <= i < entries.len() implies entry_size(level, entries[i]) <= largest_entry(level, entries) by {
            if i < rest.len() {
                assert(rest[i] == entries[i]);
            }
        }
        if largest_entry(level, entries) != 0 {
            if largest_entry(level, entries) == largest_entry(level, rest) {
                let i = choose|i: int| 0 <= i < rest.len() && entry_size(level, rest[i]) == largest_entry(level, rest);
                assert(entries[i] == rest[i]);
            } else {
                assert(entry_size(level, entries[entries.len() - 1]) == largest_entry(level, entries));
            }
        }
    }
}

/// The size of a data cache level: the C library's answer when positive, otherwise the
/// largest data or unified cache of that level sysfs lists. `None` (an OS error) when it
/// does not fit a `usize`.
pub fn cache_level_size(level: u32, answer: i64, entries: &Vec<CacheEntry>) -> (r: Option<usize>)
    ensures
        ({
            let best: int = if answer > 0 { answer as int } else { largest_entry(level, entries@) as int };
            r == (if best <= usize::MAX { Some(best as usize) } else { None::<usize> })
        }),
{
    if answer > 0 {
        return if answer as u64 as u128 <= usize::MAX as u128 { Some(answer as u64 as usize) } else { None };
    }
    let data: [u8; 4] = [68, 97, 116, 97];
    let unified: [u8; 7] = [85, 110, 105, 102, 105, 101, 100];
    assert(data@ == data_word());
    assert(unified@ == unified_word());
    let mut best: u64 = 0;
    let mut i: usize = 0;
    while i < entries.len()
        invariant
            i <= entries@.len(),
            data@ == data_word(),
            unified@ == unified_word(),
            best == largest_entry(level, entries@.take(i as int)),
        decreases entries@.len() - i,
    {
        assert(entries@.take(i as int + 1).drop_last() == entries@.take(i as int));
        let e: &CacheEntry = &entries[i];
        let found: u64 = match (&e.level, &e.kind, &e.size) {
            (Some(l), Some(k), Some(sz)) => {
                let matches: bool = match parse_size(l.as_slice()) {
                    Some(v) => v == level as u64,
                    None => false,
                } && (starts_with(k.as_slice(), data.as_slice()) || starts_with(k.as_slice(), unified.as_slice()));
                if matches {
                    match parse_size(sz.as_slice()) {
                        Some(v) => v,
                        None => 0,
                    }
                } else {
                    0
                }
            }
            _ => 0,
        };
        if found > best {
            best = found;
        }
        i = i + 1;
    }
    assert(entries@.take(entries@.len() as int) == entries@);
    if best as u128 <= usize::MAX as u128 { Some(best as usize) } else { None }
}

/// The walk for the unified hierarchy's memory limit, from the memory cgroup up to its
/// mount; `None` for version 1 or without a memory cgroup.
pub fn memory_walk(groups: &CGroups) -> (r: Option<MemoryWalk>)
    requires
        groups.memory.wf(),
    ensures
        (groups.version == 2 && groups.memory.length != 0) ==> r == Some(MemoryWalk {
            directory: groups.memory,
            mount_length: groups.memory_mount.length,
            best: None,
        }),
        !(groups.version == 2 && groups.memory.length != 0) ==> r is None,
{
    if groups.version != 2 || groups.memory.length == 0 {
        return None;
    }
    Some(MemoryWalk::new(groups.memory, groups.memory_mount.length))
}

/// The walk for the swap limit: only the unified hierarchy separates swap from
/// memory, so version 1 reports nothing.
pub fn swap_walk(groups: &CGroups) -> (r: Option<SwapWalk>)
    requires
        groups.memory.wf(),
    ensures
        (groups.version == 2 && groups.memory.length != 0) ==> r == Some(SwapWalk {
            directory: groups.memory,
            mount_length: groups.memory_mount.length,
            limit: None,
            used: None,
        }),
        !(groups.version == 2 && groups.memory.length != 0) ==> r is None,
{
    if groups.version != 2 || groups.memory.length == 0 {
        return None;
    }
    Some(SwapWalk::new(groups.memory, groups.memory_mount.length))
}

/// Bytes charged to a cgroup, excluding its inactive file cache.
pub fn memory_usage(usage: Option<u64>, inactive: Option<u64>) -> (r: Option<u64>)
    ensures
        r == (match (usage, inactive) {
            (Some(u), Some(i)) => Some(if u >= i { (u - i) as u64 } else { 0u64 }),
            _ => None::<u64>,
        }),
{
    match (usage, inactive) {
        (Some(u), Some(i)) => Some(u.saturating_sub(i)),
        _ => None,
    }
}

/// The bytes of "/memory.usage_in_bytes" and "total_inactive_file " (version 1), and of
/// "/memory.current" and "inactive_file " (version 2).
pub open spec fn usage_names(version: u8) -> Option<(Seq<u8>, Seq<u8>)> {
    if version == 1 {
        Some((
            seq![47u8, 109u8, 101u8, 109u8, 111u8, 114u8, 121u8, 46u8, 117u8, 115u8, 97u8, 103u8, 101u8, 95u8, 105u8, 110u8, 95u8,
                98u8, 121u8, 116u8, 101u8, 115u8],
            seq![116u8, 111u8, 116u8, 97u8, 108u8, 95u8, 105u8, 110u8, 97u8, 99u8, 116u8, 105u8, 118u8, 101u8, 95u8, 102u8, 105u8,
                108u8, 101u8, 32u8],
        ))
    } else if version == 2 {
        Some((
            seq![47u8, 109u8, 101u8, 109u8, 111u8, 114u8, 121u8, 46u8, 99u8, 117u8, 114u8, 114u8, 101u8, 110u8, 116u8],
            seq![105u8, 110u8, 97u8, 99u8, 116u8, 105u8, 118u8, 101u8, 95u8, 102u8, 105u8, 108u8, 101u8, 32u8],
        ))
    } else {
        None
    }
}

/// The usage file and the memory.stat field of the inactive file cache for a cgroup version.
pub fn usage_files(version: u8) -> (r: Option<(Vec<u8>, Vec<u8>)>)
    ensures
        match (r, usage_names(version)) {
            (Some((a, b)), Some((x, y))) => a@ == x && b@ == y,
            (None, None) => true,
            _ => false,
        },
{
    if version == 1 {
        let a: Vec<u8> = vec![47, 109, 101, 109, 111, 114, 121, 46, 117, 115, 97, 103, 101, 95, 105, 110, 95, 98, 121, 116, 101, 115];
        let b: Vec<u8> = vec![116, 111, 116, 97, 108, 95, 105, 110, 97, 99, 116, 105, 118, 101, 95, 102, 105, 108, 101, 32];
        assert(usage_names(version) == Some((a@, b@)));
        Some((a, b))
    } else if version == 2 {
        let a: Vec<u8> = vec![47, 109, 101, 109, 111, 114, 121, 46, 99, 117, 114, 114, 101, 110, 116];
        let b: Vec<u8> = vec![105, 110, 97, 99, 116, 105, 118, 101, 95, 102, 105, 108, 101, 32];
        assert(usage_names(version) == Some((a@, b@)));
        Some((a, b))
    } else {
        None
    }
}

} // verus!
