//! The listen address grammar: an IP address and a port, as `SocketAddr` text.
//!
//! IPv4 addresses are four decimal octets without leading zeros. IPv6 addresses
//! are written in brackets, may carry a numeric scope (`%n`), use one to four
//! hexadecimal digits per group, may compress zero groups with one `::`, and may
//! end with an embedded IPv4 address in place of the last two groups.
use vstd::prelude::*;

use crate::http::{all_digits, decimal_value, is_digit};
use crate::text::{chars_of, lemma_split_nonempty, lower, lower_char, split, split_vec};

verus! {

/// A decimal number of at least one digit whose value is at most `max`.
pub open spec fn bounded_number(s: Seq<char>, max: nat) -> bool {
    s.len() > 0 && all_digits(s) && decimal_value(s) <= max
}

/// One IPv4 octet: one to three digits, no leading zero, at most 255.
pub open spec fn octet_ok(p: Seq<char>) -> bool {
    1 <= p.len() <= 3 && bounded_number(p, 255) && (p.len() == 1 || p[0] != '0')
}

pub open spec fn ipv4_ok(s: Seq<char>) -> bool {
    let parts = split(s, '.');
    parts.len() == 4 && forall|k: int| 0 <= k < 4 ==> octet_ok(#[trigger] parts[k])
}

pub open spec fn is_hex(c: char) -> bool {
    ('0' <= c && c <= '9') || ('a' <= c && c <= 'f') || ('A' <= c && c <= 'F')
}

/// One IPv6 group: one to four hexadecimal digits.
pub open spec fn hex_group_ok(p: Seq<char>) -> bool {
    1 <= p.len() <= 4 && forall|i: int| 0 <= i < p.len() ==> is_hex(#[trigger] p[i])
}

pub open spec fn hex_groups_ok(groups: Seq<Seq<char>>) -> bool {
    forall|k: int| 0 <= k < groups.len() ==> hex_group_ok(#[trigger] groups[k])
}

/// Groups that fill `slots` positions: hexadecimal groups, or hexadecimal groups
/// followed by an IPv4 address that takes two positions.
pub open spec fn groups_fill(groups: Seq<Seq<char>>, slots: int) -> bool {
    ||| hex_groups_ok(groups) && groups.len() == slots
    ||| groups.len() >= 1 && hex_groups_ok(groups.drop_last()) && ipv4_ok(groups.last())
        && groups.len() + 1 == slots
}

/// Groups that fit into at most `room` positions.
pub open spec fn groups_fit(groups: Seq<Seq<char>>, room: int) -> bool {
    ||| hex_groups_ok(groups) && groups.len() <= room
    ||| groups.len() >= 1 && hex_groups_ok(groups.drop_last()) && ipv4_ok(groups.last())
        && groups.len() + 1 <= room
}

pub open spec fn double_colon_at(s: Seq<char>, c: int) -> bool {
    0 <= c && c + 1 < s.len() && s[c] == ':' && s[c + 1] == ':'
}

pub open spec fn first_double_colon(s: Seq<char>, c: int) -> bool {
    double_colon_at(s, c) && forall|j: int| 0 <= j < c ==> !#[trigger] double_colon_at(s, j)
}

/// The part before `::`: empty, or at most seven hexadecimal groups.
pub open spec fn head_groups(h: Seq<char>) -> Seq<Seq<char>> {
    if h.len() == 0 {
        Seq::empty()
    } else {
        split(h, ':')
    }
}

/// An address with `::` at `c`: the head and tail groups leave at least one zero group.
pub open spec fn compressed_ok(s: Seq<char>, c: int) -> bool {
    let head = head_groups(s.subrange(0, c));
    let tail = head_groups(s.skip(c + 2));
    hex_groups_ok(head) && head.len() <= 7 && groups_fit(tail, 7 - head.len())
}

pub open spec fn ipv6_ok(s: Seq<char>) -> bool {
    if exists|c: int| double_colon_at(s, c) {
        exists|c: int| first_double_colon(s, c) && compressed_ok(s, c)
    } else {
        groups_fill(split(s, ':'), 8)
    }
}

pub open spec fn first_index(s: Seq<char>, ch: char, i: int) -> bool {
    0 <= i < s.len() && s[i] == ch && forall|j: int| 0 <= j < i ==> s[j] != ch
}

pub open spec fn contains_char(s: Seq<char>, ch: char) -> bool {
    exists|i: int| 0 <= i < s.len() && s[i] == ch
}

/// The text inside the brackets: an IPv6 address and an optional numeric scope.
pub open spec fn bracketed_ok(inner: Seq<char>) -> bool {
    if contains_char(inner, '%') {
        exists|p: int|
            first_index(inner, '%', p) && ipv6_ok(inner.subrange(0, p)) && bounded_number(
                inner.skip(p + 1),
                u32::MAX as nat,
            )
    } else {
        ipv6_ok(inner)
    }
}

/// The port of `a.b.c.d:port`.
pub open spec fn v4_port(s: Seq<char>) -> Option<u16> {
    let parts = split(s, ':');
    if parts.len() == 2 && ipv4_ok(parts[0]) && bounded_number(parts[1], u16::MAX as nat) {
        Some(decimal_value(parts[1]) as u16)
    } else {
        None
    }
}

/// The port of `[address%scope]:port`, split at the first `]`.
pub open spec fn v6_port_at(s: Seq<char>, b: int) -> Option<u16> {
    if s.len() > 0 && s[0] == '[' && first_index(s, ']', b) && b + 1 < s.len() && s[b + 1] == ':'
        && bounded_number(s.skip(b + 2), u16::MAX as nat) && bracketed_ok(s.subrange(1, b)) {
        Some(decimal_value(s.skip(b + 2)) as u16)
    } else {
        None
    }
}

/// The port of a listen address, or `None` when the text is not an IP address and port.
pub open spec fn spec_listen_port(s: Seq<char>) -> Option<u16> {
    match v4_port(s) {
        Some(p) => Some(p),
        None => if contains_char(s, ']') {
            v6_port_at(s, choose|b: int| first_index(s, ']', b))
        } else {
            None
        },
    }
}

pub proof fn lemma_decimal_prefix(s: Seq<char>, k: int)
    requires
        0 <= k <= s.len(),
    ensures
        decimal_value(s.subrange(0, k)) <= decimal_value(s),
    decreases s.len() - k,
{
    if k < s.len() {
        lemma_decimal_prefix(s, k + 1);
        assert(s.subrange(0, k + 1).drop_last() == s.subrange(0, k));
        let v = decimal_value(s.subrange(0, k));
        assert(v <= v * 10) by (nonlinear_arith);
    } else {
        assert(s.subrange(0, k) == s);
    }
}

/// The value of a decimal number of at least one digit, when at most `max`.
pub fn bounded_value(s: &Vec<char>, max: u32) -> (r: Option<u64>)
    ensures
        r is Some <==> bounded_number(s@, max as nat),
        r matches Some(v) ==> v == decimal_value(s@),
{
    if s.len() == 0 {
        return None;
    }
    let mut acc: u64 = 0;
    let mut i: usize = 0;
    while i < s.len()
        invariant
            i <= s.len(),
            acc <= max,
            acc as nat == decimal_value(s@.subrange(0, i as int)),
            forall|j: int| 0 <= j < i ==> is_digit(#[trigger] s@[j]),
        decreases s.len() - i,
    {
        let c = s[i];
        if !('0' <= c && c <= '9') {
            assert(!is_digit(s@[i as int]));
            return None;
        }
        assert(s@.subrange(0, i + 1).drop_last() == s@.subrange(0, i as int));
        let d: u64 = ((c as u32) - ('0' as u32)) as u64;
        acc = acc * 10 + d;
        i = i + 1;
        if acc > max as u64 {
            proof {
                lemma_decimal_prefix(s@, i as int);
            }
            return None;
        }
    }
    assert(s@.subrange(0, s@.len() as int) == s@);
    Some(acc)
}

fn octet_ok_exec(p: &Vec<char>) -> (r: bool)
    ensures
        r == octet_ok(p@),
{
    1 <= p.len() && p.len() <= 3 && bounded_value(p, 255).is_some() && (p.len() == 1 || p[0]
        != '0')
}

pub fn ipv4_ok_exec(s: &Vec<char>) -> (r: bool)
    ensures
        r == ipv4_ok(s@),
{
    let parts = split_vec(s, '.');
    let ghost views = parts@.map_values(|p: Vec<char>| p@);
    if parts.len() != 4 {
        return false;
    }
    let mut k: usize = 0;
    while k < 4
        invariant
            k <= 4,
            parts.len() == 4,
            views == parts@.map_values(|p: Vec<char>| p@),
            views == split(s@, '.'),
            forall|j: int| 0 <= j < k ==> octet_ok(#[trigger] views[j]),
        decreases 4 - k,
    {
        assert(views[k as int] == parts@[k as int]@);
        if !octet_ok_exec(&parts[k]) {
            return false;
        }
        k = k + 1;
    }
    true
}

fn hex_group_ok_exec(p: &Vec<char>) -> (r: bool)
    ensures
        r == hex_group_ok(p@),
{
    if p.len() < 1 || p.len() > 4 {
        return false;
    }
    let mut i: usize = 0;
    while i < p.len()
        invariant
            i <= p.len(),
            forall|j: int| 0 <= j < i ==> is_hex(#[trigger] p@[j]),
        decreases p.len() - i,
    {
        let c = p[i];
        if !(('0' <= c && c <= '9') || ('a' <= c && c <= 'f') || ('A' <= c && c <= 'F')) {
            return false;
        }
        i = i + 1;
    }
    true
}

/// Whether the first `n` groups are hexadecimal groups.
fn hex_prefix_ok(groups: &Vec<Vec<char>>, n: usize) -> (r: bool)
    requires
        n <= groups.len(),
    ensures
        r == hex_groups_ok(groups@.map_values(|p: Vec<char>| p@).subrange(0, n as int)),
{
    let ghost views = groups@.map_values(|p: Vec<char>| p@);
    let mut k: usize = 0;
    while k < n
        invariant
            k <= n <= groups.len(),
            views == groups@.map_values(|p: Vec<char>| p@),
            forall|j: int| 0 <= j < k ==> hex_group_ok(#[trigger] views[j]),
        decreases n - k,
    {
        assert(views[k as int] == groups@[k as int]@);
        if !hex_group_ok_exec(&groups[k]) {
            assert(views.subrange(0, n as int)[k as int] == views[k as int]);
            return false;
        }
        k = k + 1;
    }
    assert forall|j: int| 0 <= j < n implies hex_group_ok(
        #[trigger] views.subrange(0, n as int)[j],
    ) by {
        assert(views.subrange(0, n as int)[j] == views[j]);
    }
    true
}

fn groups_check(groups: &Vec<Vec<char>>, slots: usize, exact: bool) -> (r: bool)
    requires
        slots <= 8,
    ensures
        r == (if exact {
            groups_fill(groups@.map_values(|p: Vec<char>| p@), slots as int)
        } else {
            groups_fit(groups@.map_values(|p: Vec<char>| p@), slots as int)
        }),
{
    let ghost views = groups@.map_values(|p: Vec<char>| p@);
    assert(views.subrange(0, views.len() as int) == views);
    let all_hex = hex_prefix_ok(groups, groups.len());
    let plain = all_hex && (if exact {
        groups.len() == slots
    } else {
        groups.len() <= slots
    });
    if plain {
        return true;
    }
    if groups.len() == 0 {
        return false;
    }
    let n = groups.len();
    assert(views.drop_last() == views.subrange(0, n - 1));
    assert(views.last() == groups@[n - 1]@);
    let with_ipv4 = hex_prefix_ok(groups, n - 1) && ipv4_ok_exec(&groups[n - 1]) && (if exact {
        slots >= 1 && n == slots - 1
    } else {
        n < slots
    });
    with_ipv4
}

fn subrange_vec(s: &Vec<char>, from: usize, to: usize) -> (r: Vec<char>)
    requires
        from <= to <= s.len(),
    ensures
        r@ == s@.subrange(from as int, to as int),
{
    let mut r: Vec<char> = Vec::new();
    let mut i: usize = from;
    while i < to
        invariant
            from <= i <= to <= s.len(),
            r@ == s@.subrange(from as int, i as int),
        decreases to - i,
    {
        r.push(s[i]);
        i = i + 1;
        assert(s@.subrange(from as int, i as int) == s@.subrange(from as int, i - 1).push(
            s@[i - 1],
        ));
    }
    r
}

fn head_groups_exec(h: &Vec<char>) -> (r: Vec<Vec<char>>)
    ensures
        r@.map_values(|p: Vec<char>| p@) == head_groups(h@),
{
    if h.len() == 0 {
        let r: Vec<Vec<char>> = Vec::new();
        assert(r@.map_values(|p: Vec<char>| p@) =~= Seq::<Seq<char>>::empty());
        r
    } else {
        split_vec(h, ':')
    }
}

fn find_double_colon(s: &Vec<char>) -> (r: Option<usize>)
    ensures
        r matches Some(c) ==> first_double_colon(s@, c as int),
        r is None ==> !(exists|c: int| double_colon_at(s@, c)),
{
    if s.len() < 2 {
        assert forall|c: int| !double_colon_at(s@, c) by {}
        return None;
    }
    let mut i: usize = 0;
    while i < s.len() - 1
        invariant
            s.len() >= 2,
            forall|j: int| 0 <= j < i ==> !#[trigger] double_colon_at(s@, j),
        decreases s.len() - i,
    {
        if s[i] == ':' && s[i + 1] == ':' {
            return Some(i);
        }
        i = i + 1;
    }
    assert forall|c: int| !double_colon_at(s@, c) by {
        if 0 <= c < i {
        } else if double_colon_at(s@, c) {
            assert(c + 1 < s@.len());
        }
    }
    None
}

pub fn ipv6_ok_exec(s: &Vec<char>) -> (r: bool)
    ensures
        r == ipv6_ok(s@),
{
    match find_double_colon(s) {
        Some(c) => {
            assert(double_colon_at(s@, c as int));
            let len = s.len();
            assert(c + 2 <= len);
            let after: usize = c + 2;
            let head = head_groups_exec(&subrange_vec(s, 0, c));
            let tail = head_groups_exec(&subrange_vec(s, after, s.len()));
            assert(s@.subrange(c + 2, s@.len() as int) == s@.skip(c + 2));
            let ghost hv = head@.map_values(|p: Vec<char>| p@);
            assert(hv.subrange(0, hv.len() as int) == hv);
            let r = head.len() <= 7 && hex_prefix_ok(&head, head.len()) && groups_check(
                &tail,
                7 - head.len(),
                false,
            );
            proof {
                if r {
                    assert(first_double_colon(s@, c as int) && compressed_ok(s@, c as int));
                } else {
                    assert forall|c2: int| !(first_double_colon(s@, c2) && compressed_ok(s@, c2)) by {
                        if first_double_colon(s@, c2) && c2 != c {
                            if c2 < c {
                                assert(!double_colon_at(s@, c2));
                            } else {
                                assert(!double_colon_at(s@, c as int));
                            }
                        }
                    }
                }
            }
            r
        },
        None => {
            let groups = split_vec(s, ':');
            groups_check(&groups, 8, true)
        },
    }
}

fn find_char(s: &Vec<char>, ch: char) -> (r: Option<usize>)
    ensures
        r matches Some(i) ==> first_index(s@, ch, i as int),
        r is None ==> !contains_char(s@, ch),
{
    let mut i: usize = 0;
    while i < s.len()
        invariant
            i <= s.len(),
            forall|j: int| 0 <= j < i ==> s@[j] != ch,
        decreases s.len() - i,
    {
        if s[i] == ch {
            return Some(i);
        }
        i = i + 1;
    }
    None
}

proof fn lemma_first_index_unique(s: Seq<char>, ch: char, a: int, b: int)
    requires
        first_index(s, ch, a),
        first_index(s, ch, b),
    ensures
        a == b,
{
    if a < b {
        assert(s[a] != ch);
    } else if b < a {
        assert(s[b] != ch);
    }
}

fn bracketed_ok_exec(inner: &Vec<char>) -> (r: bool)
    ensures
        r == bracketed_ok(inner@),
{
    match find_char(inner, '%') {
        Some(p) => {
            let len = inner.len();
            assert(p < len);
            let address = subrange_vec(inner, 0, p);
            let scope = subrange_vec(inner, p + 1, len);
            assert(inner@.subrange(p + 1, inner@.len() as int) == inner@.skip(p + 1));
            let r = ipv6_ok_exec(&address) && bounded_value(&scope, u32::MAX).is_some();
            proof {
                assert(contains_char(inner@, '%'));
                if !r {
                    assert forall|q: int|
                        !(first_index(inner@, '%', q) && ipv6_ok(inner@.subrange(0, q))
                            && bounded_number(inner@.skip(q + 1), u32::MAX as nat)) by {
                        if first_index(inner@, '%', q) {
                            lemma_first_index_unique(inner@, '%', p as int, q);
                        }
                    }
                }
            }
            r
        },
        None => ipv6_ok_exec(inner),
    }
}

/// The port of a listen address written as `SocketAddr` text.
pub fn listen_port(text: &str) -> (r: Option<u16>)
    ensures
        r == spec_listen_port(text@),
{
    let s = chars_of(text);
    let parts = split_vec(&s, ':');
    let ghost views = parts@.map_values(|p: Vec<char>| p@);
    if parts.len() == 2 {
        assert(views[0] == parts@[0]@ && views[1] == parts@[1]@);
        if ipv4_ok_exec(&parts[0]) {
            match bounded_value(&parts[1], 65535) {
                Some(port) => return Some(port as u16),
                None => {},
            }
        }
    }
    assert(v4_port(text@) is None);
    let b = match find_char(&s, ']') {
        Some(b) => b,
        None => return None,
    };
    proof {
        assert(contains_char(text@, ']'));
        let chosen = choose|b2: int| first_index(text@, ']', b2);
        lemma_first_index_unique(text@, ']', b as int, chosen);
    }
    if s.len() == 0 || s[0] != '[' || b + 1 >= s.len() || s[b + 1] != ':' {
        return None;
    }
    let port_text = subrange_vec(&s, b + 2, s.len());
    assert(s@.subrange(b + 2, s@.len() as int) == s@.skip(b + 2));
    let port = match bounded_value(&port_text, 65535) {
        Some(port) => port,
        None => return None,
    };
    if b < 1 {
        return None;
    }
    let inner = subrange_vec(&s, 1, b);
    if !bracketed_ok_exec(&inner) {
        return None;
    }
    Some(port as u16)
}

} // verus!

verus! {

/// Lower-casing changes ASCII capitals only, into small letters.
proof fn lemma_lower_char(c: char)
    ensures
        'A' <= c <= 'Z' ==> 'a' <= lower_char(c) <= 'z',
        !('A' <= c <= 'Z') ==> lower_char(c) == c,
        is_hex(lower_char(c)) == is_hex(c),
        is_digit(lower_char(c)) == is_digit(c),
{
    if 'A' <= c && c <= 'Z' {
        assert(((c as u32) + 32) as char as u32 == (c as u32) + 32);
    }
}

/// A character that is no letter is found in a lower-cased text exactly where it
/// was.
proof fn lemma_lower_sep(c: char, sep: char)
    requires
        !('A' <= sep <= 'Z'),
        !('a' <= sep <= 'z'),
    ensures
        (lower_char(c) == sep) == (c == sep),
{
    lemma_lower_char(c);
}

proof fn lemma_lower_subrange(s: Seq<char>, a: int, b: int)
    requires
        0 <= a <= b <= s.len(),
    ensures
        lower(s.subrange(a, b)) == lower(s).subrange(a, b),
{
    assert(lower(s.subrange(a, b)) =~= lower(s).subrange(a, b));
}

proof fn lemma_split_lower(s: Seq<char>, sep: char)
    requires
        !('A' <= sep <= 'Z'),
        !('a' <= sep <= 'z'),
    ensures
        split(lower(s), sep) == split(s, sep).map_values(|p: Seq<char>| lower(p)),
    decreases s.len(),
{
    let f = |p: Seq<char>| lower(p);
    if s.len() == 0 {
        assert(lower(s) =~= Seq::<char>::empty());
        assert(lower(Seq::<char>::empty()) =~= Seq::<char>::empty());
        assert(split(s, sep).map_values(f) =~= seq![Seq::<char>::empty()]);
    } else {
        let d = s.drop_last();
        lemma_split_lower(d, sep);
        lemma_split_nonempty(d, sep);
        lemma_lower_sep(s.last(), sep);
        assert(lower(s).drop_last() =~= lower(d));
        assert(lower(s).last() == lower_char(s.last()));
        let p = split(d, sep);
        if s.last() == sep {
            assert(lower(Seq::<char>::empty()) =~= Seq::<char>::empty());
            assert(p.push(Seq::empty()).map_values(f) =~= p.map_values(f).push(Seq::empty()));
        } else {
            let q = p.update(p.len() - 1, p.last().push(s.last()));
            let m = p.map_values(f);
            assert(lower(p.last().push(s.last())) =~= lower(p.last()).push(lower_char(s.last())));
            assert(q.map_values(f) =~= m.update(m.len() - 1, m.last().push(lower_char(s.last()))));
        }
    }
}

proof fn lemma_digits_lower(p: Seq<char>)
    ensures
        all_digits(lower(p)) == all_digits(p),
        all_digits(p) ==> lower(p) == p,
{
    assert forall|i: int| 0 <= i < p.len() implies #[trigger] is_digit(lower(p)[i]) == is_digit(p[i]) by {
        lemma_lower_char(p[i]);
    }
    if all_digits(p) {
        assert forall|i: int| 0 <= i < p.len() implies #[trigger] lower(p)[i] == p[i] by {
            lemma_lower_char(p[i]);
        }
        assert(lower(p) =~= p);
    }
    if !all_digits(p) {
        let i = choose|i: int| 0 <= i < p.len() && !is_digit(#[trigger] p[i]);
        assert(!is_digit(lower(p)[i]));
    }
}

proof fn lemma_bounded_lower(p: Seq<char>, max: nat)
    ensures
        bounded_number(lower(p), max) == bounded_number(p, max),
        octet_ok(lower(p)) == octet_ok(p),
{
    lemma_digits_lower(p);
}

proof fn lemma_ipv4_lower(s: Seq<char>)
    ensures
        ipv4_ok(lower(s)) == ipv4_ok(s),
{
    lemma_split_lower(s, '.');
    let parts = split(s, '.');
    let lp = split(lower(s), '.');
    assert(lp.len() == parts.len());
    assert forall|k: int|
        #![trigger octet_ok(lp[k])]
        #![trigger octet_ok(parts[k])]
        0 <= k < parts.len() implies octet_ok(lp[k]) == octet_ok(parts[k]) by {
        assert(lp[k] == lower(parts[k]));
        lemma_bounded_lower(parts[k], 255);
    }
}

proof fn lemma_hex_group_lower(p: Seq<char>)
    ensures
        hex_group_ok(lower(p)) == hex_group_ok(p),
{
    assert forall|i: int| 0 <= i < p.len() implies #[trigger] is_hex(lower(p)[i]) == is_hex(p[i]) by {
        lemma_lower_char(p[i]);
    }
    if !hex_group_ok(p) && 1 <= p.len() <= 4 {
        let i = choose|i: int| 0 <= i < p.len() && !is_hex(#[trigger] p[i]);
        assert(!is_hex(lower(p)[i]));
    }
    if !hex_group_ok(lower(p)) && 1 <= p.len() <= 4 {
        let i = choose|i: int| 0 <= i < p.len() && !is_hex(#[trigger] lower(p)[i]);
        assert(!is_hex(p[i]));
    }
}

proof fn lemma_groups_lower(groups: Seq<Seq<char>>, slots: int)
    ensures
        hex_groups_ok(groups.map_values(|p: Seq<char>| lower(p))) == hex_groups_ok(groups),
        groups_fill(groups.map_values(|p: Seq<char>| lower(p)), slots) == groups_fill(groups, slots),
        groups_fit(groups.map_values(|p: Seq<char>| lower(p)), slots) == groups_fit(groups, slots),
{
    let f = |p: Seq<char>| lower(p);
    let m = groups.map_values(f);
    assert forall|k: int|
        #![trigger hex_group_ok(m[k])]
        #![trigger hex_group_ok(groups[k])]
        0 <= k < groups.len() implies hex_group_ok(m[k]) == hex_group_ok(groups[k]) by {
        lemma_hex_group_lower(groups[k]);
    }
    if groups.len() >= 1 {
        let d = groups.drop_last();
        assert(m.drop_last() =~= d.map_values(f));
        let md = m.drop_last();
        assert forall|k: int|
            #![trigger hex_group_ok(md[k])]
            #![trigger hex_group_ok(d[k])]
            0 <= k < d.len() implies hex_group_ok(md[k]) == hex_group_ok(d[k]) by {
            lemma_hex_group_lower(d[k]);
        }
        lemma_ipv4_lower(groups.last());
        assert(m.last() == lower(groups.last()));
        assert(hex_groups_ok(m.drop_last()) == hex_groups_ok(d));
    }
    assert(hex_groups_ok(m) == hex_groups_ok(groups));
}

proof fn lemma_head_groups_lower(h: Seq<char>)
    ensures
        head_groups(lower(h)) == head_groups(h).map_values(|p: Seq<char>| lower(p)),
{
    if h.len() == 0 {
        assert(head_groups(h).map_values(|p: Seq<char>| lower(p)) =~= Seq::<Seq<char>>::empty());
    } else {
        lemma_split_lower(h, ':');
    }
}

proof fn lemma_ipv6_lower(s: Seq<char>)
    ensures
        ipv6_ok(lower(s)) == ipv6_ok(s),
{
    let l = lower(s);
    assert forall|c: int|
        #![trigger double_colon_at(l, c)]
        #![trigger double_colon_at(s, c)]
        double_colon_at(l, c) == double_colon_at(s, c) by {
        if 0 <= c && c + 1 < s.len() {
            lemma_lower_sep(s[c], ':');
            lemma_lower_sep(s[c + 1], ':');
        }
    }
    assert forall|c: int|
        #![trigger compressed_ok(l, c)]
        #![trigger compressed_ok(s, c)]
        (first_double_colon(l, c) && compressed_ok(l, c)) == (first_double_colon(s, c) && compressed_ok(s, c)) by {
        assert(first_double_colon(l, c) == first_double_colon(s, c));
        if first_double_colon(s, c) {
            assert(0 <= c && c + 2 <= s.len());
            lemma_lower_subrange(s, 0, c);
            lemma_lower_subrange(s, c + 2, s.len() as int);
            assert(s.skip(c + 2) == s.subrange(c + 2, s.len() as int));
            assert(l.skip(c + 2) == l.subrange(c + 2, s.len() as int));
            lemma_head_groups_lower(s.subrange(0, c));
            lemma_head_groups_lower(s.skip(c + 2));
            let head = head_groups(s.subrange(0, c));
            lemma_groups_lower(head, 7);
            lemma_groups_lower(head_groups(s.skip(c + 2)), 7 - head.len());
        }
    }
    if exists|c: int| double_colon_at(s, c) {
        let c = choose|c: int| double_colon_at(s, c);
        assert(double_colon_at(l, c));
        if exists|c: int| first_double_colon(s, c) && compressed_ok(s, c) {
            let k = choose|c: int| first_double_colon(s, c) && compressed_ok(s, c);
            assert(first_double_colon(l, k) && compressed_ok(l, k));
        }
        if exists|c: int| first_double_colon(l, c) && compressed_ok(l, c) {
            let k = choose|c: int| first_double_colon(l, c) && compressed_ok(l, c);
            assert(first_double_colon(s, k) && compressed_ok(s, k));
        }
    } else {
        if exists|c: int| double_colon_at(l, c) {
            let c = choose|c: int| double_colon_at(l, c);
            assert(double_colon_at(s, c));
        }
        lemma_split_lower(s, ':');
        lemma_groups_lower(split(s, ':'), 8);
    }
}

proof fn lemma_first_index_lower(s: Seq<char>, ch: char, i: int)
    requires
        !('A' <= ch <= 'Z'),
        !('a' <= ch <= 'z'),
    ensures
        first_index(lower(s), ch, i) == first_index(s, ch, i),
        contains_char(lower(s), ch) == contains_char(s, ch),
{
    assert forall|j: int|
        #![trigger lower(s)[j]]
        #![trigger s[j]]
        0 <= j < s.len() implies (lower(s)[j] == ch) == (s[j] == ch) by {
        lemma_lower_sep(s[j], ch);
    }
    if contains_char(s, ch) {
        let j = choose|j: int| 0 <= j < s.len() && s[j] == ch;
        assert(lower(s)[j] == ch);
    }
    if contains_char(lower(s), ch) {
        let j = choose|j: int| 0 <= j < s.len() && lower(s)[j] == ch;
        assert(s[j] == ch);
    }
}

proof fn lemma_bracketed_lower(inner: Seq<char>)
    ensures
        bracketed_ok(lower(inner)) == bracketed_ok(inner),
{
    let l = lower(inner);
    lemma_first_index_lower(inner, '%', 0);
    assert forall|p: int|
        #![trigger first_index(l, '%', p)]
        #![trigger first_index(inner, '%', p)]
        (first_index(l, '%', p) && ipv6_ok(l.subrange(0, p)) && bounded_number(l.skip(p + 1), u32::MAX as nat))
            == (first_index(inner, '%', p) && ipv6_ok(inner.subrange(0, p)) && bounded_number(
            inner.skip(p + 1),
            u32::MAX as nat,
        )) by {
        lemma_first_index_lower(inner, '%', p);
        if first_index(inner, '%', p) {
            lemma_lower_subrange(inner, 0, p);
            lemma_lower_subrange(inner, p + 1, inner.len() as int);
            assert(inner.skip(p + 1) == inner.subrange(p + 1, inner.len() as int));
            assert(l.skip(p + 1) == l.subrange(p + 1, inner.len() as int));
            lemma_ipv6_lower(inner.subrange(0, p));
            lemma_bounded_lower(inner.skip(p + 1), u32::MAX as nat);
        }
    }
    lemma_ipv6_lower(inner);
}

proof fn lemma_v4_port_lower(s: Seq<char>)
    ensures
        v4_port(lower(s)) == v4_port(s),
{
    lemma_split_lower(s, ':');
    let parts = split(s, ':');
    if parts.len() == 2 {
        lemma_ipv4_lower(parts[0]);
        lemma_bounded_lower(parts[1], u16::MAX as nat);
        lemma_digits_lower(parts[1]);
    }
}

proof fn lemma_v6_port_lower(s: Seq<char>, b: int)
    ensures
        v6_port_at(lower(s), b) == v6_port_at(s, b),
{
    let l = lower(s);
    lemma_first_index_lower(s, ']', b);
    if s.len() > 0 {
        lemma_lower_sep(s[0], '[');
    }
    if s.len() > 0 && s[0] == '[' && first_index(s, ']', b) && b + 1 < s.len() {
        lemma_lower_sep(s[b + 1], ':');
        lemma_lower_subrange(s, 1, b);
        lemma_lower_subrange(s, b + 2, s.len() as int);
        assert(s.skip(b + 2) == s.subrange(b + 2, s.len() as int));
        assert(l.skip(b + 2) == l.subrange(b + 2, s.len() as int));
        lemma_bounded_lower(s.skip(b + 2), u16::MAX as nat);
        lemma_digits_lower(s.skip(b + 2));
        lemma_bracketed_lower(s.subrange(1, b));
    }
}

/// A listen address is accepted, with the same port, whatever the letter case of
/// its text: IPv6 hexadecimal digits may be written in capitals.
pub proof fn listen_address_ignores_letter_case(s: Seq<char>)
    ensures
        spec_listen_port(lower(s)) == spec_listen_port(s),
{
    let l = lower(s);
    lemma_v4_port_lower(s);
    lemma_first_index_lower(s, ']', 0);
    if v4_port(s) is None && contains_char(s, ']') {
        let j = choose|j: int| 0 <= j < s.len() && s[j] == ']';
        let b0 = choose|b: int| first_index(s, ']', b);
        lemma_first_exists(s, ']', j);
        let bl = choose|b: int| first_index(l, ']', b);
        lemma_first_index_lower(s, ']', b0);
        lemma_first_index_lower(s, ']', bl);
        lemma_first_index_unique(s, ']', b0, bl);
        lemma_v6_port_lower(s, b0);
    }
}

/// A character that occurs has a first occurrence.
proof fn lemma_first_exists(s: Seq<char>, ch: char, j: int)
    requires
        0 <= j < s.len(),
        s[j] == ch,
    ensures
        exists|b: int| first_index(s, ch, b),
    decreases j,
{
    if forall|k: int| 0 <= k < j ==> s[k] != ch {
        assert(first_index(s, ch, j));
    } else {
        let k = choose|k: int| 0 <= k < j && s[k] == ch;
        lemma_first_exists(s, ch, k);
    }
}

} // verus!
