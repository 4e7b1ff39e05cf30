use vstd::prelude::*;

use crate::mac::MacAddress;

verus! {

/// The fixed Wake-on-LAN payload for the six MAC bytes `m`: 6 bytes of
/// `0xFF`, then `m` repeated 16 times, 102 bytes in all.
pub open spec fn magic_packet_spec(m: Seq<u8>) -> Seq<u8> {
    Seq::new(
        102,
        |i: int|
            if i < 6 {
                0xFFu8
            } else {
                m[(i - 6) % 6]
            },
    )
}

/// Builds the 102-byte magic packet for `mac`: offsets 0 to 5 hold `0xFF`,
/// and each of the 16 following 6-byte blocks holds the MAC bytes in order.
/// Every address encodes; there is no failure case.
pub fn encode(mac: &MacAddress) -> (r: Vec<u8>)
    ensures
        r@ == magic_packet_spec(mac@),
        r@.len() == 102,
        forall|i: int| 0 <= i < 6 ==> r@[i] == 0xFFu8,
        forall|k: int, j: int|
            #![trigger r@[6 + 6 * k + j]]
            0 <= k < 16 && 0 <= j < 6 ==> r@[6 + 6 * k + j] == mac@[j],
{
    let bytes = mac.to_bytes();
    let mut r: Vec<u8> = Vec::new();
    let mut i: usize = 0;
    while i < 6
        invariant
            i <= 6,
            r@.len() == i,
            forall|p: int| 0 <= p < i ==> r@[p] == 0xFFu8,
        decreases 6 - i,
    {
        r.push(0xFF);
        i = i + 1;
    }
    let mut k: usize = 0;
    while k < 16
        invariant
            bytes@ == mac@,
            bytes@.len() == 6,
            k <= 16,
            r@.len() == 6 + 6 * k,
            forall|p: int| 0 <= p < 6 ==> r@[p] == 0xFFu8,
            forall|p: int|
                #![trigger r@[p]]
                6 <= p < 6 + 6 * k ==> r@[p] == mac@[(p - 6) % 6],
        decreases 16 - k,
    {
        let mut j: usize = 0;
        while j < 6
            invariant
                bytes@ == mac@,
                bytes@.len() == 6,
                k < 16,
                j <= 6,
                r@.len() == 6 + 6 * k + j,
                forall|p: int| 0 <= p < 6 ==> r@[p] == 0xFFu8,
                forall|p: int|
                    #![trigger r@[p]]
                    6 <= p < 6 + 6 * k + j ==> r@[p] == mac@[(p - 6) % 6],
            decreases 6 - j,
        {
            r.push(bytes[j]);
            j = j + 1;
        }
        k = k + 1;
    }
    proof {
        assert(r@ =~= magic_packet_spec(mac@));
    }
    r
}

} // verus!
