use vstd::prelude::*;

use crate::mac::{
    bytes_of, canonical_shape, contains_char, count_char, count_char_from, delimiter_of,
    format_mac, hex_digit_char, hex_val, is_hex_digit, parse_spec,
};
use crate::mac::MacAddress;

verus! {

/// The uppercase digit of a hex value is a hex digit and reads back as it.
proof fn lemma_hex_digit_char(v: int)
    requires
        0 <= v < 16,
    ensures
        is_hex_digit(hex_digit_char(v)),
        hex_val(hex_digit_char(v)) == v,
{
}

/// A text in canonical shape for delimiter `d` parses, to exactly its groups'
/// byte values.
proof fn lemma_canonical_parses(s: Seq<char>, d: char)
    requires
        d == ':' || d == '-',
        canonical_shape(s, d),
    ensures
        parse_spec(s) == Ok::<Seq<u8>, crate::errors::WolError>(bytes_of(s)),
{
    assert forall|i: int| 0 <= i < 17 && i % 3 != 2 implies #[trigger] s[i] != ':' && s[i]
        != '-' by {
        assert(is_hex_digit(s[i]));
    }
    assert(s[2] == d);
    assert(contains_char(s, d));
    if d == ':' {
        assert(!contains_char(s, '-'));
        assert(delimiter_of(s) == d);
    } else {
        assert(delimiter_of(s) == d);
    }
    assert(count_char(s, d) == 5) by {
        reveal_with_fuel(count_char_from, 19);
        assert(count_char_from(s, d, 17) == 0);
        assert(count_char_from(s, d, 0) == 5);
    }
}

/// Round trip: formatting any six bytes and parsing the text yields those
/// bytes again.
pub proof fn lemma_parse_format_roundtrip(b: Seq<u8>)
    requires
        b.len() == 6,
    ensures
        parse_spec(format_mac(b)) == Ok::<Seq<u8>, crate::errors::WolError>(b),
{
    let s = format_mac(b);
    assert forall|i: int| 0 <= i < 17 && i % 3 != 2 implies is_hex_digit(#[trigger] s[i])
        && hex_val(s[i]) == (if i % 3 == 0 {
        b[i / 3] as int / 16
    } else {
        b[i / 3] as int % 16
    }) by {
        if i % 3 == 0 {
            lemma_hex_digit_char(b[i / 3] as int / 16);
        } else {
            lemma_hex_digit_char(b[i / 3] as int % 16);
        }
    }
    assert(canonical_shape(s, ':'));
    lemma_canonical_parses(s, ':');
    assert forall|i: int| 0 <= i < 6 implies #[trigger] bytes_of(s)[i] == b[i] by {
        assert(hex_val(s[3 * i]) == b[i] as int / 16);
        assert(hex_val(s[3 * i + 1]) == b[i] as int % 16);
        assert((b[i] as int / 16) * 16 + b[i] as int % 16 == b[i] as int);
    }
    assert(bytes_of(s) =~= b);
}

/// Well-formed inputs parse whichever of the two delimiters they use, and two
/// inputs whose groups carry the same values, in either letter case, parse to
/// the same bytes.
pub proof fn lemma_parse_insensitive(s1: Seq<char>, s2: Seq<char>, d1: char, d2: char)
    requires
        d1 == ':' || d1 == '-',
        d2 == ':' || d2 == '-',
        canonical_shape(s1, d1),
        canonical_shape(s2, d2),
        forall|i: int|
            #![trigger s1[i], s2[i]]
            0 <= i < 17 && i % 3 != 2 ==> hex_val(s1[i]) == hex_val(s2[i]),
    ensures
        parse_spec(s1) is Ok,
        parse_spec(s1) == parse_spec(s2),
        format_mac(bytes_of(s1)) == format_mac(bytes_of(s2)),
{
    lemma_canonical_parses(s1, d1);
    lemma_canonical_parses(s2, d2);
    assert(bytes_of(s1) =~= bytes_of(s2));
}

/// The registry map after the insertions `adds`, applied in order.
pub open spec fn insert_all(
    m: Map<Seq<char>, MacAddress>,
    adds: Seq<(Seq<char>, MacAddress)>,
) -> Map<Seq<char>, MacAddress>
    decreases adds.len(),
{
    if adds.len() == 0 {
        m
    } else {
        insert_all(m, adds.drop_last()).insert(adds.last().0, adds.last().1)
    }
}

/// No lost update, in general: however many insertions run one after the
/// other — as the exclusive write section demands — and in whatever order
/// they were serialized, the final registry still binds every name that was
/// added, as long as the names are distinct.
pub proof fn lemma_serialized_adds_all_survive(
    m: Map<Seq<char>, MacAddress>,
    adds: Seq<(Seq<char>, MacAddress)>,
)
    requires
        forall|p: int, q: int| 0 <= p < q < adds.len() ==> adds[p].0 != adds[q].0,
    ensures
        forall|k: int|
            #![trigger adds[k]]
            0 <= k < adds.len() ==> insert_all(m, adds).contains_key(adds[k].0) && insert_all(
                m,
                adds,
            )[adds[k].0] == adds[k].1,
    decreases adds.len(),
{
    if adds.len() > 0 {
        let t = adds.drop_last();
        lemma_serialized_adds_all_survive(m, t);
        assert forall|k: int|
            0 <= k < adds.len() implies insert_all(m, adds).contains_key(#[trigger] adds[k].0)
            && insert_all(m, adds)[adds[k].0] == adds[k].1 by {
            if k < adds.len() - 1 {
                assert(t[k] == adds[k]);
                assert(adds[k].0 != adds[adds.len() - 1].0);
            }
        }
    }
}

/// No lost update: two registry insertions under distinct names, run one
/// after the other as the exclusive section of the write path demands, leave
/// both bindings in the map, whichever order the two ran in.
pub proof fn lemma_no_lost_update(
    m: Map<Seq<char>, MacAddress>,
    n1: Seq<char>,
    mac1: MacAddress,
    n2: Seq<char>,
    mac2: MacAddress,
)
    requires
        n1 != n2,
    ensures
        m.insert(n1, mac1).insert(n2, mac2).contains_key(n1),
        m.insert(n1, mac1).insert(n2, mac2).contains_key(n2),
        m.insert(n1, mac1).insert(n2, mac2)[n1] == mac1,
        m.insert(n1, mac1).insert(n2, mac2)[n2] == mac2,
        m.insert(n2, mac2).insert(n1, mac1).contains_key(n1),
        m.insert(n2, mac2).insert(n1, mac1).contains_key(n2),
        m.insert(n2, mac2).insert(n1, mac1)[n1] == mac1,
        m.insert(n2, mac2).insert(n1, mac1)[n2] == mac2,
{
}

} // verus!
