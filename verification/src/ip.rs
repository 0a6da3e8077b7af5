//! IP addresses as text: which texts are addresses, and which address each is.
//!
//! An IPv4 address is four decimal numbers up to 255, without leading zeros, with dots between.
//! An IPv6 address is eight groups of one to four hexadecimal digits with colons between; one
//! run of one or more zero groups may be left out (`::`), and the last two groups may be
//! written as an IPv4 address.
use vstd::prelude::*;

use crate::text;

verus! {

/// The value of a digit in a base up to 16; `None` for another character.
pub open spec fn digit_value(c: char, radix: int) -> Option<int> {
    let v = if '0' <= c && c <= '9' {
        c as int - '0' as int
    } else if 'a' <= c && c <= 'f' {
        c as int - 'a' as int + 10
    } else if 'A' <= c && c <= 'F' {
        c as int - 'A' as int + 10
    } else {
        16
    };
    if v < radix {
        Some(v)
    } else {
        None
    }
}

/// The number that digits stand for, most significant first; `None` if one is no digit.
pub open spec fn number(s: Seq<char>, radix: int) -> Option<int>
    decreases s.len(),
{
    if s.len() == 0 {
        Some(0)
    } else {
        match (number(s.drop_last(), radix), digit_value(s.last(), radix)) {
            (Some(n), Some(d)) => Some(n * radix + d),
            _ => None,
        }
    }
}

pub(crate) fn digit_of(c: char, radix: u32) -> (r: Option<u32>)
    requires
        radix <= 16,
    ensures
        match r {
            Some(v) => digit_value(c, radix as int) == Some(v as int),
            None => digit_value(c, radix as int) is None,
        },
{
    let n: u32 = c as u32;
    let v: u32 = if '0' <= c && c <= '9' {
        n - 48
    } else if 'a' <= c && c <= 'f' {
        n - 87
    } else if 'A' <= c && c <= 'F' {
        n - 55
    } else {
        16
    };
    if v < radix {
        Some(v)
    } else {
        None
    }
}

proof fn lemma_number_bound(s: Seq<char>, radix: int)
    requires
        1 <= radix <= 16,
    ensures
        number(s, radix) matches Some(n) ==> 0 <= n,
        s.len() <= 4 ==> (number(s, radix) matches Some(n) ==> n < 0x1_0000),
        s.len() <= 3 ==> (number(s, radix) matches Some(n) ==> n < 0x1000),
        s.len() <= 2 ==> (number(s, radix) matches Some(n) ==> n < 0x100),
        s.len() <= 1 ==> (number(s, radix) matches Some(n) ==> n < 0x10),
        s.len() == 0 ==> number(s, radix) == Some(0int),
    decreases s.len(),
{
    if s.len() > 0 {
        lemma_number_bound(s.drop_last(), radix);
        if number(s, radix) is Some {
            let n = number(s.drop_last(), radix)->0;
            assert(0 <= n * radix <= n * 16) by (nonlinear_arith)
                requires
                    0 <= n,
                    1 <= radix <= 16,
            ;
        }
    }
}

/// The number that at most four digits stand for.
fn read_number(s: &[char], radix: u32) -> (r: Option<u32>)
    requires
        1 <= radix <= 16,
        s@.len() <= 4,
    ensures
        match r {
            Some(n) => number(s@, radix as int) == Some(n as int) && n < 0x1_0000,
            None => number(s@, radix as int) is None,
        },
{
    let mut n: u32 = 0;
    let mut ok = true;
    assert(s@.take(0) =~= Seq::empty());
    for i in 0..s.len()
        invariant
            1 <= radix <= 16,
            s@.len() <= 4,
            number(s@.take(i as int), radix as int) == (if ok {
                Some(n as int)
            } else {
                None
            }),
            n < 0x1_0000,
    {
        assert(s@.take(i + 1).drop_last() =~= s@.take(i as int));
        proof {
            lemma_number_bound(s@.take(i + 1), radix as int);
            assert(0 <= n * radix <= n * 16) by (nonlinear_arith)
                requires
                    0 <= n,
                    1 <= radix <= 16,
            ;
        }
        match digit_of(s[i], radix) {
            Some(d) => {
                if ok {
                    n = n * radix + d;
                }
            },
            None => {
                ok = false;
            },
        }
    }
    assert(s@.take(s@.len() as int) =~= s@);
    if ok {
        Some(n)
    } else {
        None
    }
}

/// One number of an IPv4 address: one to three digits, no leading zero, at most 255.
pub open spec fn octet(s: Seq<char>) -> Option<u8> {
    if 1 <= s.len() <= 3 && (s.len() == 1 || s[0] != '0') {
        match number(s, 10) {
            Some(n) if n <= 255 => Some(n as u8),
            _ => None,
        }
    } else {
        None
    }
}

/// The four numbers of an IPv4 address; `None` for another text.
pub open spec fn ipv4(s: Seq<char>) -> Option<Seq<u8>> {
    let p = text::split(s, text::Separator::Is('.'));
    if p.len() == 4 && octet(p[0]) is Some && octet(p[1]) is Some && octet(p[2]) is Some && octet(
        p[3],
    ) is Some {
        Some(seq![octet(p[0])->0, octet(p[1])->0, octet(p[2])->0, octet(p[3])->0])
    } else {
        None
    }
}

fn read_octet(s: &[char]) -> (r: Option<u8>)
    ensures
        r == octet(s@),
{
    if s.len() < 1 || s.len() > 3 || (s.len() > 1 && s[0] == '0') {
        return None;
    }
    match read_number(s, 10) {
        Some(n) => {
            if n <= 255 {
                Some(n as u8)
            } else {
                None
            }
        },
        None => None,
    }
}

/// Reads an IPv4 address.
pub fn read_ipv4(s: &[char]) -> (r: Option<[u8; 4]>)
    ensures
        match r {
            Some(a) => ipv4(s@) == Some(a@),
            None => ipv4(s@) is None,
        },
{
    let p = text::split_at(s, text::Separator::Is('.'));
    let ghost ps = text::texts(p@);
    if p.len() != 4 {
        return None;
    }
    let a = read_octet(p[0].as_slice());
    let b = read_octet(p[1].as_slice());
    let c = read_octet(p[2].as_slice());
    let d = read_octet(p[3].as_slice());
    assert(ps[0] == p@[0]@ && ps[1] == p@[1]@ && ps[2] == p@[2]@ && ps[3] == p@[3]@);
    match (a, b, c, d) {
        (Some(a), Some(b), Some(c), Some(d)) => {
            let r = [a, b, c, d];
            assert(r@ =~= seq![a, b, c, d]);
            Some(r)
        },
        _ => None,
    }
}

/// Whether a text is an IPv4 address.
pub fn is_ipv4(s: &str) -> (r: bool)
    ensures
        r == ipv4(s@) is Some,
{
    let chars = text::chars_of(s);
    read_ipv4(chars.as_slice()).is_some()
}

/// One group of an IPv6 address: one to four hexadecimal digits.
pub open spec fn group(s: Seq<char>) -> Option<u16> {
    if 1 <= s.len() <= 4 {
        match number(s, 16) {
            Some(n) => Some(n as u16),
            None => None,
        }
    } else {
        None
    }
}

/// Groups of an IPv6 address; `None` if one is none.
pub open spec fn groups(p: Seq<Seq<char>>) -> Option<Seq<u16>>
    decreases p.len(),
{
    if p.len() == 0 {
        Some(Seq::empty())
    } else {
        match (groups(p.drop_last()), group(p.last())) {
            (Some(g), Some(x)) => Some(g.push(x)),
            _ => None,
        }
    }
}

/// The two groups that an IPv4 address stands for.
pub open spec fn pair(a: Seq<u8>) -> Seq<u16> {
    seq![(a[0] * 256 + a[1]) as u16, (a[2] * 256 + a[3]) as u16]
}

/// Groups with colons between, none for an empty text. With `v4`, the last two groups may be
/// written as an IPv4 address.
pub open spec fn group_list(s: Seq<char>, v4: bool) -> Option<Seq<u16>> {
    let p = text::split(s, text::Separator::Is(':'));
    if s.len() == 0 {
        Some(Seq::empty())
    } else if v4 && ipv4(p.last()) is Some {
        match groups(p.drop_last()) {
            Some(g) => Some(g + pair(ipv4(p.last())->0)),
            None => None,
        }
    } else {
        groups(p)
    }
}

/// `n` zero groups.
pub open spec fn zeros(n: int) -> Seq<u16> {
    Seq::new(n as nat, |i: int| 0u16)
}

/// The eight groups of an IPv6 address; `None` for another text.
pub open spec fn ipv6(s: Seq<char>) -> Option<Seq<u16>> {
    match text::find_from(s, "::"@, 0) {
        None => match group_list(s, true) {
            Some(g) if g.len() == 8 => Some(g),
            _ => None,
        },
        Some(i) => match (group_list(s.take(i), false), group_list(s.skip(i + 2), true)) {
            (Some(a), Some(b)) if a.len() + b.len() <= 7 => Some(
                a + zeros(8 - a.len() - b.len()) + b,
            ),
            _ => None,
        },
    }
}

fn read_group(s: &[char]) -> (r: Option<u16>)
    ensures
        r == group(s@),
{
    if s.len() < 1 || s.len() > 4 {
        return None;
    }
    match read_number(s, 16) {
        Some(n) => Some(n as u16),
        None => None,
    }
}

/// Reads the first `n` of some pieces as groups.
fn read_groups(p: &Vec<Vec<char>>, n: usize) -> (r: Option<Vec<u16>>)
    requires
        n <= p@.len(),
    ensures
        match r {
            Some(g) => groups(text::texts(p@).take(n as int)) == Some(g@),
            None => groups(text::texts(p@).take(n as int)) is None,
        },
{
    let ghost all = text::texts(p@);
    let mut out: Vec<u16> = Vec::new();
    assert(all.take(0) =~= Seq::empty());
    let mut i: usize = 0;
    while i < n
        invariant
            all == text::texts(p@),
            i <= n <= p@.len(),
            groups(all.take(i as int)) == Some(out@),
        decreases n - i,
    {
        assert(all.take(i + 1).drop_last() =~= all.take(i as int));
        assert(all.take(i + 1).last() == p@[i as int]@);
        match read_group(p[i].as_slice()) {
            Some(g) => {
                out.push(g);
            },
            None => {
                proof {
                    lemma_groups_prefix(all, i + 1, n as int);
                }
                return None;
            },
        }
        i = i + 1;
    }
    Some(out)
}

proof fn lemma_groups_prefix(p: Seq<Seq<char>>, i: int, n: int)
    requires
        0 <= i <= n <= p.len(),
        groups(p.take(i)) is None,
    ensures
        groups(p.take(n)) is None,
    decreases n - i,
{
    if n > i {
        lemma_groups_prefix(p, i, n - 1);
        assert(p.take(n).drop_last() =~= p.take(n - 1));
    }
}

fn read_group_list(s: &[char], v4: bool) -> (r: Option<Vec<u16>>)
    ensures
        match r {
            Some(g) => group_list(s@, v4) == Some(g@),
            None => group_list(s@, v4) is None,
        },
{
    if s.len() == 0 {
        let none: Vec<u16> = Vec::new();
        assert(none@ =~= Seq::empty());
        return Some(none);
    }
    let p = text::split_at(s, text::Separator::Is(':'));
    let ghost ps = text::texts(p@);
    proof {
        text::lemma_split_nonempty(s@, text::Separator::Is(':'));
        assert(ps.last() == p@[p@.len() - 1]@);
        assert(ps.take(ps.len() - 1) =~= ps.drop_last());
        assert(ps.take(ps.len() as int) =~= ps);
    }
    if v4 {
        if let Some(a) = read_ipv4(p[p.len() - 1].as_slice()) {
            return match read_groups(&p, p.len() - 1) {
                Some(mut g) => {
                    let ghost before = g@;
                    g.push(a[0] as u16 * 256 + a[1] as u16);
                    g.push(a[2] as u16 * 256 + a[3] as u16);
                    assert(g@ =~= before + pair(a@));
                    Some(g)
                },
                None => None,
            };
        }
    }
    read_groups(&p, p.len())
}

/// Reads an IPv6 address: its eight groups.
pub fn read_ipv6(s: &str) -> (r: Option<Vec<u16>>)
    ensures
        match r {
            Some(g) => ipv6(s@) == Some(g@) && g@.len() == 8,
            None => ipv6(s@) is None,
        },
{
    let chars = text::chars_of(s);
    let end = chars.len();
    let gap = text::chars_of("::");
    proof {
        reveal_strlit("::");
    }
    assert(gap@.len() == 2);
    match text::first_position(chars.as_slice(), gap.as_slice()) {
        None => match read_group_list(chars.as_slice(), true) {
            Some(g) => if g.len() == 8 {
                Some(g)
            } else {
                None
            },
            None => None,
        },
        Some(i) => {
            let head = text::part(chars.as_slice(), 0, i);
            assert(i + 2 <= end);
            let tail = text::part(chars.as_slice(), i + 2, end);
            assert(head@ =~= s@.take(i as int));
            assert(tail@ =~= s@.skip(i + 2));
            let a = read_group_list(head.as_slice(), false);
            let b = read_group_list(tail.as_slice(), true);
            match (a, b) {
                (Some(mut a), Some(b)) => {
                    if a.len() > 7 || b.len() > 7 - a.len() {
                        return None;
                    }
                    let ghost start = a@;
                    let n = 8 - a.len() - b.len();
                    let mut k: usize = 0;
                    while k < n
                        invariant
                            k <= n,
                            a@ == start + zeros(k as int),
                        decreases n - k,
                    {
                        a.push(0);
                        k = k + 1;
                        assert(a@ =~= start + zeros(k as int));
                    }
                    let ghost padded = a@;
                    a.extend_from_slice(b.as_slice());
                    assert(a@ =~= padded + b@);
                    Some(a)
                },
                _ => None,
            }
        },
    }
}

/// Whether a text is an IPv6 address.
pub fn is_ipv6(s: &str) -> (r: bool)
    ensures
        r == ipv6(s@) is Some,
{
    read_ipv6(s).is_some()
}

/// Whether a text is an IP address of either family.
pub fn is_ip(s: &str) -> (r: bool)
    ensures
        r == (ipv4(s@) is Some || ipv6(s@) is Some),
{
    is_ipv4(s) || is_ipv6(s)
}

/// The dotted text of four numbers.
pub open spec fn dotted(a: u8, b: u8, c: u8, d: u8) -> Seq<char> {
    text::decimal(a as nat).push('.') + (text::decimal(b as nat).push('.') + (text::decimal(
        c as nat,
    ).push('.') + text::decimal(d as nat)))
}

proof fn lemma_decimal_octet(n: u8)
    ensures
        octet(text::decimal(n as nat)) == Some(n),
        text::unbroken(text::decimal(n as nat), text::Separator::Is('.')),
{
    reveal_with_fuel(text::decimal, 4);
    reveal_with_fuel(number, 4);
    let s = text::decimal(n as nat);
    if n >= 100 {
        assert(s.drop_last() =~= text::decimal((n / 10) as nat));
        assert(s.drop_last().drop_last() =~= text::decimal((n / 100) as nat));
        assert(s.drop_last().drop_last().drop_last() =~= Seq::empty());
        assert((n / 10) / 10 == n / 100);
    } else if n >= 10 {
        assert(s.drop_last() =~= text::decimal((n / 10) as nat));
        assert(s.drop_last().drop_last() =~= Seq::empty());
    } else {
        assert(s.drop_last() =~= Seq::empty());
    }
}

/// Four numbers written in decimal with dots between are read back as they were.
pub proof fn dotted_text_reads_back(a: u8, b: u8, c: u8, d: u8)
    ensures
        ipv4(dotted(a, b, c, d)) == Some(seq![a, b, c, d]),
{
    let dot = text::Separator::Is('.');
    lemma_decimal_octet(a);
    lemma_decimal_octet(b);
    lemma_decimal_octet(c);
    lemma_decimal_octet(d);
    let (sa, sb, sc, sd) = (
        text::decimal(a as nat),
        text::decimal(b as nat),
        text::decimal(c as nat),
        text::decimal(d as nat),
    );
    text::lemma_split_unbroken(sa, dot);
    text::lemma_split_unbroken(sb, dot);
    text::lemma_split_unbroken(sc, dot);
    text::lemma_split_unbroken(sd, dot);
    text::lemma_split_concat(sc, '.', sd, dot);
    text::lemma_split_concat(sb, '.', sc.push('.') + sd, dot);
    text::lemma_split_concat(sa, '.', sb.push('.') + (sc.push('.') + sd), dot);
    assert(text::split(dotted(a, b, c, d), dot) =~= seq![sa, sb, sc, sd]);
}

proof fn lemma_number_has_no(s: Seq<char>, radix: int, c: char)
    requires
        digit_value(c, radix) is None,
        number(s, radix) is Some,
    ensures
        !s.contains(c),
    decreases s.len(),
{
    if s.len() > 0 {
        lemma_number_has_no(s.drop_last(), radix, c);
        if s.contains(c) {
            let i = choose|i: int| 0 <= i < s.len() && s[i] == c;
            if i < s.len() - 1 {
                assert(s.drop_last()[i] == c);
            }
        }
    }
}

/// No text is an address of both families: an IPv4 address holds no colon, and an IPv6 address
/// holds one.
pub proof fn families_are_disjoint(s: Seq<char>)
    ensures
        ipv4(s) is Some ==> !s.contains(':'),
        ipv6(s) is Some ==> s.contains(':'),
{
    if ipv4(s) is Some {
        lemma_ipv4_has_no(s, ':');
    }
    if ipv6(s) is Some {
        reveal_strlit("::");
        text::lemma_find_found(s, "::"@, 0);
        if text::find_from(s, "::"@, 0) is Some {
            let i = text::find_from(s, "::"@, 0)->0;
            assert(s.subrange(i, i + 2)[0] == ':');
            assert(s[i] == ':');
        } else if !s.contains(':') {
            let colon = text::Separator::Is(':');
            assert forall|i: int| 0 <= i < s.len() implies !colon.separates(#[trigger] s[i]) by {
                assert(s.contains(s[i]));
            }
            text::lemma_split_unbroken(s, colon);
            reveal_with_fuel(groups, 2);
            assert(seq![s].drop_last() =~= Seq::<Seq<char>>::empty());
        }
    }
}

proof fn lemma_ipv4_has_no(s: Seq<char>, c: char)
    requires
        ipv4(s) is Some,
        c != '.',
        digit_value(c, 10) is None,
    ensures
        !s.contains(c),
{
    let p = text::split(s, text::Separator::Is('.'));
    lemma_number_has_no(p[0], 10, c);
    lemma_number_has_no(p[1], 10, c);
    lemma_number_has_no(p[2], 10, c);
    lemma_number_has_no(p[3], 10, c);
    if s.contains(c) {
        text::lemma_pieces_have_char(s, text::Separator::Is('.'), c);
        let k = choose|k: int| 0 <= k < p.len() && (#[trigger] p[k]).contains(c);
        assert(p[k].contains(c));
    }
}

proof fn lemma_groups_have_no(p: Seq<Seq<char>>, c: char, k: int)
    requires
        groups(p) is Some,
        digit_value(c, 16) is None,
        0 <= k < p.len(),
    ensures
        !p[k].contains(c),
    decreases p.len(),
{
    if k == p.len() - 1 {
        lemma_number_has_no(p.last(), 16, c);
    } else {
        lemma_groups_have_no(p.drop_last(), c, k);
    }
}

proof fn lemma_group_list_has_no(s: Seq<char>, v4: bool, c: char)
    requires
        group_list(s, v4) is Some,
        text::ascii_space(c),
    ensures
        !s.contains(c),
{
    let p = text::split(s, text::Separator::Is(':'));
    if s.contains(c) {
        text::lemma_pieces_have_char(s, text::Separator::Is(':'), c);
        let k = choose|k: int| 0 <= k < p.len() && (#[trigger] p[k]).contains(c);
        if v4 && ipv4(p.last()) is Some {
            lemma_ipv4_has_no(p.last(), c);
            if k < p.len() - 1 {
                lemma_groups_have_no(p.drop_last(), c, k);
            }
        } else {
            lemma_groups_have_no(p, c, k);
        }
    }
}

/// An address holds something, and no white space.
pub proof fn addresses_are_words(s: Seq<char>)
    requires
        ipv4(s) is Some || ipv6(s) is Some,
    ensures
        text::is_word(s),
{
    assert forall|i: int| 0 <= i < s.len() implies !text::Separator::AsciiSpace.separates(
        #[trigger] s[i],
    ) by {
        let c = s[i];
        if text::ascii_space(c) {
            assert(s.contains(c));
            if ipv4(s) is Some {
                lemma_ipv4_has_no(s, c);
            } else {
                reveal_strlit("::");
                text::lemma_find_found(s, "::"@, 0);
                match text::find_from(s, "::"@, 0) {
                    None => {
                        lemma_group_list_has_no(s, true, c);
                    },
                    Some(k) => {
                        let (a, b) = (s.take(k), s.skip(k + 2));
                        assert(s.subrange(k, k + 2)[0] == ':' && s.subrange(k, k + 2)[1] == ':');
                        lemma_group_list_has_no(a, false, c);
                        lemma_group_list_has_no(b, true, c);
                        if i < k {
                            assert(a[i] == c);
                        } else if i >= k + 2 {
                            assert(b[i - k - 2] == c);
                        }
                    },
                }
            }
        }
    }
    if s.len() == 0 {
        families_are_disjoint(s);
        text::lemma_split_unbroken(s, text::Separator::Is('.'));
    }
}

/// What the digits say, one by one.
pub proof fn digits_have_their_values(c: char)
    ensures
        48 <= c as u32 <= 57 ==> digit_value(c, 10) == Some(c as u32 - 48) && digit_value(c, 16)
            == Some(c as u32 - 48),
        65 <= c as u32 <= 70 ==> digit_value(c, 16) == Some(c as u32 - 55),
        97 <= c as u32 <= 102 ==> digit_value(c, 16) == Some(c as u32 - 87),
        !(48 <= c as u32 <= 57) ==> digit_value(c, 10) is None,
        !(48 <= c as u32 <= 57 || 65 <= c as u32 <= 70 || 97 <= c as u32 <= 102) ==> digit_value(
            c,
            16,
        ) is None,
{
}

/// Digits count by their place.
pub proof fn digits_count_by_their_place(s: Seq<char>, c: char, radix: int)
    ensures
        number(Seq::empty(), radix) == Some(0int),
        number(s, radix) is Some && digit_value(c, radix) is Some ==> number(s.push(c), radix)
            == Some(number(s, radix)->0 * radix + digit_value(c, radix)->0),
        number(s, radix) is None || digit_value(c, radix) is None ==> number(
            s.push(c),
            radix,
        ) is None,
{
    assert(s.push(c).drop_last() =~= s);
}

proof fn lemma_octet_is_decimal(s: Seq<char>)
    requires
        octet(s) is Some,
    ensures
        s == text::decimal(octet(s)->0 as nat),
{
    reveal_with_fuel(number, 4);
    reveal_with_fuel(text::decimal, 4);
    let n = octet(s)->0 as nat;
    assert(number(s, 10) == Some(n as int));
    let a = s.drop_last();
    if s.len() == 1 {
        assert(a =~= Seq::empty());
        assert(s =~= seq![text::digit(n)]);
    } else if s.len() == 2 {
        assert(a.drop_last() =~= Seq::empty());
        assert(n / 10 == s[0] as u32 - 48 && n % 10 == s[1] as u32 - 48);
        assert(s =~= text::decimal(n));
    } else {
        let b = a.drop_last();
        assert(b.drop_last() =~= Seq::empty());
        let (x, y, z) = (s[0] as u32 - 48, s[1] as u32 - 48, s[2] as u32 - 48);
        assert(b.last() == s[0] && a.last() == s[1] && s.last() == s[2]);
        assert(n == (x * 10 + y) * 10 + z);
        assert(n / 10 == x * 10 + y && n % 10 == z);
        assert(n / 10 / 10 == x && (n / 10) % 10 == y);
        assert(s =~= text::decimal(n));
    }
}

/// An IPv4 address is written in one way only: its four numbers in decimal, dots between. So
/// leading zeros, numbers above 255, and missing or further numbers are refused.
pub proof fn dotted_text_is_the_only_one(s: Seq<char>)
    requires
        ipv4(s) is Some,
    ensures
        ({
            let a = ipv4(s)->0;
            a.len() == 4 && s == dotted(a[0], a[1], a[2], a[3])
        }),
{
    reveal_with_fuel(text::joined, 5);
    let p = text::split(s, text::Separator::Is('.'));
    let a = ipv4(s)->0;
    text::pieces_join_to_the_text(s, '.');
    lemma_octet_is_decimal(p[0]);
    lemma_octet_is_decimal(p[1]);
    lemma_octet_is_decimal(p[2]);
    lemma_octet_is_decimal(p[3]);
    let q3 = p.drop_last();
    let q2 = q3.drop_last();
    let q1 = q2.drop_last();
    assert(q1 =~= seq![p[0]]);
    assert(text::joined(q2, '.') =~= p[0].push('.') + p[1]);
    assert(text::joined(q3, '.') =~= (p[0].push('.') + p[1]).push('.') + p[2]);
    assert(text::joined(p, '.') =~= dotted(a[0], a[1], a[2], a[3]));
}

/// A group is one to four hexadecimal digits, and says what they say.
pub proof fn groups_are_hexadecimal(s: Seq<char>)
    ensures
        group(s) is Some <==> 1 <= s.len() <= 4 && number(s, 16) is Some,
        group(s) is Some ==> group(s) == Some(number(s, 16)->0 as u16),
{
}

/// A shortened address stands for the groups on both sides of the two colons, with zeros between
/// to make them eight; at least one group is left out.
pub proof fn two_colons_stand_for_zeros(s: Seq<char>, i: int, a: Seq<u16>, b: Seq<u16>, k: int)
    requires
        text::find_from(s, "::"@, 0) == Some(i),
        group_list(s.take(i), false) == Some(a),
        group_list(s.skip(i + 2), true) == Some(b),
    ensures
        ipv6(s) is Some <==> a.len() + b.len() < 8,
        ipv6(s) matches Some(g) ==> {
            &&& g.len() == 8
            &&& 0 <= k < a.len() ==> g[k] == a[k]
            &&& a.len() <= k < 8 - b.len() ==> g[k] == 0
            &&& 0 <= k < b.len() ==> g[8 - b.len() + k] == b[k]
        },
{
}

/// The last two groups may be written as an IPv4 address: two numbers to a group, the first
/// counting 256 times. Without that no dots are read.
pub proof fn dotted_tail_makes_two_groups(s: Seq<char>, g: Seq<u16>, a: Seq<u8>)
    requires
        s.len() > 0,
        ipv4(text::split(s, text::Separator::Is(':')).last()) == Some(a),
        groups(text::split(s, text::Separator::Is(':')).drop_last()) == Some(g),
    ensures
        group_list(s, true) is Some,
        ({
            let r = group_list(s, true)->0;
            &&& r.len() == g.len() + 2
            &&& forall|i: int| 0 <= i < g.len() ==> r[i] == g[i]
            &&& r[g.len() as int] == a[0] * 256 + a[1]
            &&& r[g.len() as int + 1] == a[2] * 256 + a[3]
        }),
        group_list(s, false) == groups(text::split(s, text::Separator::Is(':'))),
{
}

/// Groups are read one by one, each as it stands.
pub proof fn groups_are_read_one_by_one(p: Seq<Seq<char>>, s: Seq<char>)
    ensures
        groups(Seq::empty()) == Some(Seq::<u16>::empty()),
        groups(p) is Some && group(s) is Some ==> groups(p.push(s)) == Some(
            groups(p)->0.push(group(s)->0),
        ),
        groups(p) is None || group(s) is None ==> groups(p.push(s)) is None,
{
    assert(p.push(s).drop_last() =~= p);
}

/// Without two colons an address has all of its eight groups.
pub proof fn full_addresses_have_eight_groups(s: Seq<char>)
    requires
        text::find_from(s, "::"@, 0) is None,
    ensures
        ipv6(s) is Some <==> group_list(s, true) is Some && group_list(s, true)->0.len() == 8,
        ipv6(s) is Some ==> ipv6(s) == group_list(s, true),
{
}

} // verus!
