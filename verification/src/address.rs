//! The addresses that the client is given as text.

use vstd::prelude::*;
use vstd::string::*;

verus! {

/// Why a text names no hardware address. Its parts stand between colons and are
/// counted from zero.
#[derive(Clone, Copy, Debug, PartialEq, Eq, Structural)]
pub enum MacError {
    /// There is no such part.
    Missing { part: usize },
    /// The part is not made of pairs of hexadecimal digits.
    NotHex { part: usize },
    /// The part is empty.
    Empty { part: usize },
}

/// The parts of a text between its colons, one more than it has colons.
pub open spec fn parts(s: Seq<char>) -> Seq<Seq<char>>
    decreases s.len(),
{
    if s.len() == 0 {
        seq![Seq::empty()]
    } else {
        let before = parts(s.drop_last());
        if s.last() == ':' {
            before.push(Seq::empty())
        } else {
            before.drop_last().push(before.last().push(s.last()))
        }
    }
}

/// The value of a hexadecimal digit, if the character is one.
pub open spec fn digit(c: char) -> Option<int> {
    if '0' <= c <= '9' {
        Some(c as int - '0' as int)
    } else if 'a' <= c <= 'f' {
        Some(c as int - 'a' as int + 10)
    } else if 'A' <= c <= 'F' {
        Some(c as int - 'A' as int + 10)
    } else {
        None
    }
}

/// Whether a text is made of pairs of hexadecimal digits.
pub open spec fn is_hex(s: Seq<char>) -> bool {
    s.len() % 2 == 0 && forall|i: int| 0 <= i < s.len() ==> digit(#[trigger] s[i]) is Some
}

/// The byte that the digits at `2 * i` and `2 * i + 1` stand for.
pub open spec fn octet(s: Seq<char>, i: int) -> int {
    16 * digit(s[2 * i])->0 + digit(s[2 * i + 1])->0
}

/// The declaration of `hex::FromHexError`. Nothing is known of a value of it.
#[verifier::external_type_specification]
#[verifier::external_body]
pub struct ExFromHexError(hex::FromHexError);

/// `hex::decode` of a text. It succeeds exactly on pairs of hexadecimal digits,
/// of either case, and gives one byte for each pair, the high digit first.
#[verifier::external_body]
fn hex_decode(text: &str) -> (r: Result<Vec<u8>, hex::FromHexError>)
    ensures
        r is Ok <==> is_hex(text@),
        r matches Ok(b) ==> b@.len() == text@.len() / 2,
        r matches Ok(b) ==> forall|i: int| 0 <= i < b@.len() ==> b@[i] == octet(text@, i),
{
    hex::decode(text)
}

/// The parts of a text between its colons.
pub fn split(text: &str) -> (r: Vec<&str>)
    ensures
        r@.len() == parts(text@).len(),
        forall|i: int| 0 <= i < r@.len() ==> r@[i]@ == parts(text@)[i],
{
    let n: usize = text.unicode_len();
    let mut out: Vec<&str> = Vec::new();
    let mut start: usize = 0;
    let mut i: usize = 0;
    proof {
        assert(text@.take(0) =~= Seq::empty());
        assert(text@.subrange(0, 0) =~= Seq::empty());
    }
    while i < n
        invariant
            n == text@.len(),
            start <= i <= n,
            parts(text@.take(i as int)).len() == out@.len() + 1,
            forall|j: int| 0 <= j < out@.len() ==> out@[j]@ == parts(text@.take(i as int))[j],
            parts(text@.take(i as int)).last() == text@.subrange(start as int, i as int),
        decreases n - i,
    {
        proof {
            assert(text@.take(i + 1).drop_last() =~= text@.take(i as int));
            assert(text@.take(i + 1).last() == text@[i as int]);
        }
        if text.get_char(i) == ':' {
            out.push(text.substring_char(start, i));
            start = i + 1;
            assert(text@.subrange(i + 1, i + 1) =~= Seq::empty());
        } else {
            assert(text@.subrange(start as int, i + 1) =~= text@.subrange(
                start as int,
                i as int,
            ).push(text@[i as int]));
        }
        i = i + 1;
    }
    assert(text@.take(n as int) =~= text@);
    out.push(text.substring_char(start, n));
    out
}

/// What is wrong with the part at `i`, if anything is.
pub open spec fn fault(ps: Seq<Seq<char>>, i: usize) -> Option<MacError> {
    if i >= ps.len() {
        Some(MacError::Missing { part: i })
    } else if !is_hex(ps[i as int]) {
        Some(MacError::NotHex { part: i })
    } else if ps[i as int].len() == 0 {
        Some(MacError::Empty { part: i })
    } else {
        None
    }
}

/// Whether the text names the hardware address: nothing is wrong with its first
/// six parts, and each begins with the byte of the address at its place.
pub open spec fn names(text: Seq<char>, mac: [u8; 6]) -> bool {
    forall|i: usize|
        i < 6 ==> (#[trigger] fault(parts(text), i) is None) && mac[i as int] == octet(
            parts(text)[i as int],
            0,
        )
}

/// Whether `e` is what is wrong with the first part of the text, of six, with
/// which anything is.
pub open spec fn first_fault(text: Seq<char>, e: MacError) -> bool {
    exists|i: usize|
        i < 6 && #[trigger] fault(parts(text), i) == Some(e) && forall|j: usize|
            j < i ==> (#[trigger] fault(parts(text), j) is None)
}

/// The hardware address that a text names: the first byte of each of its first
/// six parts. What follows them is not looked at.
pub fn parse_mac(target: &str) -> (r: Result<[u8; 6], MacError>)
    ensures
        match r {
            Ok(mac) => names(target@, mac),
            Err(e) => first_fault(target@, e),
        },
{
    let ps = split(target);
    let mut mac: [u8; 6] = [0; 6];
    let mut i: usize = 0;
    while i < 6
        invariant
            i <= 6,
            ps@.len() == parts(target@).len(),
            forall|j: int| 0 <= j < ps@.len() ==> ps@[j]@ == parts(target@)[j],
            forall|j: usize|
                0 <= j < i ==> (#[trigger] fault(parts(target@), j) is None) && mac[j as int]
                    == octet(parts(target@)[j as int], 0),
        decreases 6 - i,
    {
        if i >= ps.len() {
            assert(fault(parts(target@), i) == Some(MacError::Missing { part: i }));
            return Err(MacError::Missing { part: i });
        }
        match hex_decode(ps[i]) {
            Ok(bytes) => {
                if bytes.len() == 0 {
                    assert(fault(parts(target@), i) == Some(MacError::Empty { part: i }));
                    return Err(MacError::Empty { part: i });
                }
                mac[i] = bytes[0];
            },
            Err(_) => {
                assert(fault(parts(target@), i) == Some(MacError::NotHex { part: i }));
                return Err(MacError::NotHex { part: i });
            },
        }
        i = i + 1;
    }
    Ok(mac)
}

/// How many bytes the system keeps for the name of an interface.
pub const IFNAMSIZ: usize = 16;

/// The name of an interface as the system takes it: its bytes, then zeros.
/// There is none for a name that does not fit.
pub fn interface_name(iface: &str) -> (r: Option<[u8; 16]>)
    ensures
        r is None <==> iface.spec_bytes().len() > 16,
        r matches Some(name) ==> forall|i: int|
            0 <= i < 16 ==> name[i] == (if i < iface.spec_bytes().len() {
                iface.spec_bytes()[i]
            } else {
                0u8
            }),
{
    let bytes = iface.as_bytes();
    let n: usize = bytes.len();
    if n > IFNAMSIZ {
        return None;
    }
    let mut name: [u8; 16] = [0; 16];
    let mut i: usize = 0;
    while i < n
        invariant
            i <= n <= IFNAMSIZ,
            bytes@ == iface.spec_bytes(),
            n == bytes@.len(),
            forall|j: int| 0 <= j < i ==> name[j] == bytes@[j],
            forall|j: int| i <= j < IFNAMSIZ ==> name[j] == 0,
        decreases n - i,
    {
        name[i] = bytes[i];
        i = i + 1;
    }
    Some(name)
}

/// Law: a colon between two texts parts them, and nothing else changes: the
/// parts of the whole are those of the first text, then those of the second.
pub proof fn law_a_colon_separates(a: Seq<char>, b: Seq<char>)
    ensures
        parts(a.push(':') + b) == parts(a) + parts(b),
    decreases b.len(),
{
    let whole = a.push(':') + b;
    if b.len() == 0 {
        assert(whole =~= a.push(':'));
        assert(whole.drop_last() =~= a);
    } else {
        law_a_colon_separates(a, b.drop_last());
        lemma_some_part(b.drop_last());
        assert(whole.drop_last() =~= a.push(':') + b.drop_last());
        let before = parts(a) + parts(b.drop_last());
        assert(before.last() == parts(b.drop_last()).last());
        assert(before.drop_last() =~= parts(a) + parts(b.drop_last()).drop_last());
    }
}

/// Law: what follows six parts does not matter. A text that has them names the
/// same address, or is wrong in the same way, with anything behind a further
/// colon.
pub proof fn law_only_six_parts_count(text: Seq<char>, rest: Seq<char>, mac: [u8; 6], e: MacError)
    requires
        parts(text).len() >= 6,
    ensures
        names(text.push(':') + rest, mac) <==> names(text, mac),
        first_fault(text.push(':') + rest, e) <==> first_fault(text, e),
{
    law_a_colon_separates(text, rest);
    let more = parts(text.push(':') + rest);
    assert forall|i: usize| i < 6 implies #[trigger] fault(more, i) == fault(parts(text), i)
        && more[i as int] == parts(text)[i as int] by {}
    if names(text.push(':') + rest, mac) {
        assert forall|i: usize| i < 6 implies (#[trigger] fault(parts(text), i) is None)
            && mac[i as int] == octet(parts(text)[i as int], 0) by {
            assert(fault(more, i) is None);
        }
    }
    if first_fault(text.push(':') + rest, e) {
        let i = choose|i: usize|
            i < 6 && #[trigger] fault(more, i) == Some(e) && forall|j: usize|
                j < i ==> (#[trigger] fault(more, j) is None);
        assert(fault(parts(text), i) == Some(e));
        assert forall|j: usize| j < i implies (#[trigger] fault(parts(text), j) is None) by {
            assert(fault(more, j) is None);
        }
    }
    if first_fault(text, e) {
        let i = choose|i: usize|
            i < 6 && #[trigger] fault(parts(text), i) == Some(e) && forall|j: usize|
                j < i ==> (#[trigger] fault(parts(text), j) is None);
        assert(fault(more, i) == Some(e));
    }
}

/// Law: a text names at most one address, and none if anything is wrong with its
/// first six parts.
pub proof fn law_a_text_names_one_address(text: Seq<char>, a: [u8; 6], b: [u8; 6], e: MacError)
    requires
        names(text, a),
    ensures
        names(text, b) ==> a == b,
        !first_fault(text, e),
{
    if names(text, b) {
        assert forall|i: int| 0 <= i < 6 implies a@[i] == b@[i] by {
            assert(fault(parts(text), i as usize) is None);
        }
        assert(a =~= b);
    }
}

/// Law: a text without a colon is its only part. With the law that a colon
/// separates, this settles the parts of every text.
pub proof fn law_no_colon_no_division(s: Seq<char>)
    requires
        forall|i: int| 0 <= i < s.len() ==> #[trigger] s[i] != ':',
    ensures
        parts(s) == seq![s],
    decreases s.len(),
{
    if s.len() > 0 {
        let before = s.drop_last();
        assert forall|i: int| 0 <= i < before.len() implies #[trigger] before[i] != ':' by {
            assert(s[i] != ':');
        }
        law_no_colon_no_division(before);
        assert(s.last() == s[s.len() - 1]);
        assert(before.push(s.last()) =~= s);
        assert(parts(s) =~= seq![s]);
    } else {
        assert(s =~= Seq::empty());
    }
}

/// Law: the hexadecimal digits are 0 to 9 and a to f in either case, with the
/// values 0 to 15.
pub proof fn law_the_digits(c: char, v: int)
    ensures
        digit(c) == Some(v) <==> {
            ||| 48 <= c as int <= 57 && v == c as int - 48
            ||| 65 <= c as int <= 70 && v == c as int - 55
            ||| 97 <= c as int <= 102 && v == c as int - 87
        },
        digit('0') == Some(0int) && digit('9') == Some(9int) && digit('a') == Some(10int)
            && digit('f') == Some(15int) && digit('A') == Some(10int) && digit('F') == Some(15int),
{
}

/// Law: what may be wrong with a part. It may not be there, it may hold an odd
/// number of characters or one that is no digit, or it may be empty; a part that is
/// none of that begins with two digits, which give the byte.
pub proof fn law_what_a_part_gives(ps: Seq<Seq<char>>, i: usize)
    ensures
        fault(ps, i) == Some(MacError::Missing { part: i }) <==> ps.len() <= i,
        fault(ps, i) == Some(MacError::Empty { part: i }) <==> i < ps.len() && ps[i as int].len()
            == 0,
        fault(ps, i) == Some(MacError::NotHex { part: i }) <==> i < ps.len() && (
        ps[i as int].len() % 2 == 1 || exists|j: int|
            0 <= j < ps[i as int].len() && digit(#[trigger] ps[i as int][j]) is None),
        fault(ps, i) is None ==> i < ps.len() && ps[i as int].len() >= 2 && octet(ps[i as int], 0)
            == 16 * digit(ps[i as int][0])->0 + digit(ps[i as int][1])->0,
        fault(ps, i) is None || fault(ps, i) == Some(MacError::Missing { part: i }) || fault(ps, i)
            == Some(MacError::Empty { part: i }) || fault(ps, i) == Some(
            MacError::NotHex { part: i },
        ),
{
}

/// Law: the usual text of an address, six pairs of digits between colons, names the
/// address whose bytes the pairs are.
pub proof fn law_the_usual_text_names_its_address(text: Seq<char>, mac: [u8; 6])
    requires
        text.len() == 17,
        text[2] == ':' && text[5] == ':' && text[8] == ':' && text[11] == ':' && text[14] == ':',
        forall|i: int|
            0 <= i < 6 ==> digit(text[3 * i]) is Some && digit(text[3 * i + 1]) is Some
                && #[trigger] mac[i] == 16 * digit(text[3 * i])->0 + digit(text[3 * i + 1])->0,
    ensures
        names(text, mac),
{
    assert(mac[0] == 16 * digit(text[0])->0 + digit(text[1])->0);
    assert(mac[1] == 16 * digit(text[3])->0 + digit(text[4])->0);
    assert(mac[2] == 16 * digit(text[6])->0 + digit(text[7])->0);
    assert(mac[3] == 16 * digit(text[9])->0 + digit(text[10])->0);
    assert(mac[4] == 16 * digit(text[12])->0 + digit(text[13])->0);
    assert(mac[5] == 16 * digit(text[15])->0 + digit(text[16])->0);
    let p0 = seq![text[0], text[1]];
    let p1 = seq![text[3], text[4]];
    let p2 = seq![text[6], text[7]];
    let p3 = seq![text[9], text[10]];
    let p4 = seq![text[12], text[13]];
    let p5 = seq![text[15], text[16]];
    law_no_colon_no_division(p0);
    law_no_colon_no_division(p1);
    law_no_colon_no_division(p2);
    law_no_colon_no_division(p3);
    law_no_colon_no_division(p4);
    law_no_colon_no_division(p5);
    let t1 = p0.push(':') + p1;
    let t2 = t1.push(':') + p2;
    let t3 = t2.push(':') + p3;
    let t4 = t3.push(':') + p4;
    let t5 = t4.push(':') + p5;
    law_a_colon_separates(p0, p1);
    law_a_colon_separates(t1, p2);
    law_a_colon_separates(t2, p3);
    law_a_colon_separates(t3, p4);
    law_a_colon_separates(t4, p5);
    assert(t5 =~= text);
    assert(parts(text) =~= seq![p0, p1, p2, p3, p4, p5]);
    assert forall|i: usize| i < 6 implies (#[trigger] fault(parts(text), i) is None)
        && mac[i as int] == octet(parts(text)[i as int], 0) by {
        let p = parts(text)[i as int];
        assert(p =~= seq![text[3 * i], text[3 * i + 1]]);
        assert(mac[i as int] == 16 * digit(text[3 * i])->0 + digit(text[3 * i + 1])->0);
    }
}

/// Whether a part gives a byte: pairs of digits, at least one.
pub open spec fn gives_a_byte(p: Seq<char>) -> bool {
    &&& p.len() >= 2
    &&& p.len() % 2 == 0
    &&& forall|j: int| 0 <= j < p.len() ==> digit(#[trigger] p[j]) is Some
}

/// Law: a text names an address exactly where each of its first six parts gives a
/// byte, and then the first two digits of each part are the byte at its place.
pub proof fn law_the_address_that_a_text_names(text: Seq<char>, mac: [u8; 6])
    ensures
        names(text, mac) <==> parts(text).len() >= 6 && forall|i: int|
            0 <= i < 6 ==> gives_a_byte(#[trigger] parts(text)[i]) && mac[i] == 16 * digit(
                parts(text)[i][0],
            )->0 + digit(parts(text)[i][1])->0,
{
    let ps = parts(text);
    if names(text, mac) {
        assert(fault(ps, 5) is None);
        assert forall|i: int| 0 <= i < 6 implies gives_a_byte(#[trigger] ps[i]) && mac[i] == 16
            * digit(ps[i][0])->0 + digit(ps[i][1])->0 by {
            assert(fault(ps, i as usize) is None);
        }
    }
    if ps.len() >= 6 && forall|i: int|
        0 <= i < 6 ==> gives_a_byte(#[trigger] ps[i]) && mac[i] == 16 * digit(ps[i][0])->0 + digit(
            ps[i][1],
        )->0 {
        assert forall|i: usize| i < 6 implies (#[trigger] fault(ps, i) is None) && mac[i as int]
            == octet(ps[i as int], 0) by {
            assert(gives_a_byte(ps[i as int]));
        }
    }
}

/// Whether `e` says of the part at `at` that it is not there, is empty, or is not
/// made of pairs of digits, and that is so.
pub open spec fn says(ps: Seq<Seq<char>>, at: usize, e: MacError) -> bool {
    match e {
        MacError::Missing { part } => part == at && ps.len() <= at,
        MacError::Empty { part } => part == at && at < ps.len() && ps[at as int].len() == 0,
        MacError::NotHex { part } => part == at && at < ps.len() && ps[at as int].len() > 0
            && !gives_a_byte(ps[at as int]),
    }
}

/// Law: the error of a text is about the first of its six parts that gives no byte,
/// and says why.
pub proof fn law_the_error_of_a_text(text: Seq<char>, e: MacError)
    ensures
        first_fault(text, e) <==> exists|at: usize|
            at < 6 && #[trigger] says(parts(text), at, e) && at <= parts(text).len() && forall|j: int|
                0 <= j < at ==> gives_a_byte(#[trigger] parts(text)[j]),
{
    let ps = parts(text);
    assert forall|i: usize| #[trigger] says(ps, i, e) <==> fault(ps, i) == Some(e) by {
        if i < ps.len() {
            let p = ps[i as int];
            assert(p.len() > 0 ==> (gives_a_byte(p) <==> is_hex(p)));
        }
    }
    if first_fault(text, e) {
        let i = choose|i: usize|
            i < 6 && #[trigger] fault(ps, i) == Some(e) && forall|j: usize|
                j < i ==> (#[trigger] fault(ps, j) is None);
        assert(says(ps, i, e));
        assert forall|j: int| 0 <= j < i implies j < ps.len() && gives_a_byte(
            #[trigger] ps[j],
        ) by {
            assert(fault(ps, j as usize) is None);
        }
        if i > ps.len() {
            assert(fault(ps, (i - 1) as usize) is None);
        }
    }
    if exists|at: usize|
        at < 6 && #[trigger] says(ps, at, e) && at <= ps.len() && forall|j: int|
            0 <= j < at ==> gives_a_byte(#[trigger] ps[j]) {
        let at = choose|at: usize|
            at < 6 && #[trigger] says(ps, at, e) && at <= ps.len() && forall|j: int|
                0 <= j < at ==> gives_a_byte(#[trigger] ps[j]);
        assert forall|j: usize| j < at implies (#[trigger] fault(ps, j) is None) by {
            assert(gives_a_byte(ps[j as int]));
        }
        assert(fault(ps, at) == Some(e));
    }
}

/// A text has at least one part.
proof fn lemma_some_part(s: Seq<char>)
    ensures
        parts(s).len() >= 1,
{
}

} // verus!
