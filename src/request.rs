use vstd::prelude::*;
use crate::bytes::{le32, push_u32, read_u32};
use crate::types::{Request, opcode_of};

verus! {

/// The marker that starts every simple packet.
pub open spec fn simple_header() -> Seq<u8> {
    seq![0xFFu8, 0xFFu8, 0xFFu8, 0xFFu8]
}

/// The payload of an INFO request: "Source Engine Query" and a zero byte.
pub open spec fn info_marker() -> Seq<u8> {
    seq![
        0x53u8, 0x6fu8, 0x75u8, 0x72u8, 0x63u8, 0x65u8, 0x20u8, 0x45u8, 0x6eu8, 0x67u8,
        0x69u8, 0x6eu8, 0x65u8, 0x20u8, 0x51u8, 0x75u8, 0x65u8, 0x72u8, 0x79u8, 0x00u8,
    ]
}

/// The four bytes of `x`, least significant first.
pub open spec fn le32_bytes(x: u32) -> Seq<u8> {
    seq![
        (x % 256) as u8,
        ((x / 256) % 256) as u8,
        ((x / 65536) % 256) as u8,
        (x / 16777216) as u8,
    ]
}

/// What a request of `kind` carries after its opcode.
pub open spec fn request_payload(kind: Request, challenge: u32) -> Seq<u8> {
    match kind {
        Request::INFO => info_marker(),
        _ => le32_bytes(challenge),
    }
}

/// The bytes of a request: header, opcode, payload.
pub open spec fn request_bytes(kind: Request, challenge: u32) -> Seq<u8> {
    simple_header().push(opcode_of(kind)) + request_payload(kind, challenge)
}

/// What a request's bytes say: its kind, and the challenge token for the
/// kinds that carry one.
pub open spec fn decoded_request(b: Seq<u8>) -> Option<(Request, Option<u32>)> {
    if b.len() < 5 || b.subrange(0, 4) != simple_header() {
        None
    } else if b[4] == 0x54 && b.subrange(5, b.len() as int) == info_marker() {
        Some((Request::INFO, None))
    } else if b[4] == 0x55 && b.len() == 9 {
        Some((Request::PLAYERS, Some(le32(b, 5) as u32)))
    } else if b[4] == 0x56 && b.len() == 9 {
        Some((Request::RULES, Some(le32(b, 5) as u32)))
    } else {
        None
    }
}

/// The bytes of the INFO marker.
fn info_marker_bytes() -> (r: Vec<u8>)
    ensures
        r@ == info_marker(),
{
    let r: Vec<u8> = vec![
        0x53u8, 0x6fu8, 0x75u8, 0x72u8, 0x63u8, 0x65u8, 0x20u8, 0x45u8, 0x6eu8, 0x67u8,
        0x69u8, 0x6eu8, 0x65u8, 0x20u8, 0x51u8, 0x75u8, 0x65u8, 0x72u8, 0x79u8, 0x00u8,
    ];
    assert(r@ =~= info_marker());
    r
}

/// Builds the request of `kind`. INFO carries its marker and no token;
/// PLAYERS and RULES carry `challenge` (`0xFFFFFFFF` asks for a challenge).
pub fn encode_request(kind: Request, challenge: u32) -> (r: Vec<u8>)
    ensures
        r@ == request_bytes(kind, challenge),
{
    let mut v: Vec<u8> = Vec::new();
    v.push(0xFF);
    v.push(0xFF);
    v.push(0xFF);
    v.push(0xFF);
    v.push(kind.opcode());
    let ghost head = v@;
    assert(head =~= simple_header().push(opcode_of(kind)));
    match kind {
        Request::INFO => {
            let m = info_marker_bytes();
            let mut i: usize = 0;
            while i < m.len()
                invariant
                    i <= m@.len(),
                    m@ == info_marker(),
                    v@ == head + m@.subrange(0, i as int),
                decreases m@.len() - i,
            {
                v.push(m[i]);
                i = i + 1;
                assert(v@ =~= head + m@.subrange(0, i as int));
            }
            assert(m@.subrange(0, m@.len() as int) =~= m@);
        },
        _ => {
            push_u32(&mut v, challenge);
            proof {
                lemma_le32_bytes(challenge);
            }
            assert(v@ =~= head + le32_bytes(challenge)) by {
                assert(v@.subrange(0, 5) == head);
                assert(forall|k: int| 0 <= k < 4 ==> v@[5 + k] == le32_bytes(challenge)[k]) by {
                    lemma_le32_unique(v@, 5, challenge);
                }
            }
        },
    }
    v
}

proof fn lemma_le32_bytes(x: u32)
    ensures
        le32(le32_bytes(x), 0) == x as int,
{
}

proof fn lemma_le32_unique(s: Seq<u8>, p: int, x: u32)
    requires
        0 <= p,
        p + 4 <= s.len(),
        le32(s, p) == x as int,
    ensures
        s[p] == (x % 256) as u8,
        s[p + 1] == ((x / 256) % 256) as u8,
        s[p + 2] == ((x / 65536) % 256) as u8,
        s[p + 3] == (x / 16777216) as u8,
{
}

/// Reads back what a request's bytes say, as `decoded_request` states.
pub fn decode_request(b: &Vec<u8>) -> (r: Option<(Request, Option<u32>)>)
    ensures
        r == decoded_request(b@),
{
    let n = b.len();
    if n < 5 || b[0] != 0xFF || b[1] != 0xFF || b[2] != 0xFF || b[3] != 0xFF {
        proof {
            if n >= 5 {
                assert(b@.subrange(0, 4)[0] == b@[0]);
                assert(b@.subrange(0, 4)[1] == b@[1]);
                assert(b@.subrange(0, 4)[2] == b@[2]);
                assert(b@.subrange(0, 4)[3] == b@[3]);
            }
        }
        return None;
    }
    assert(b@.subrange(0, 4) =~= simple_header());
    let op = b[4];
    if op == 0x54 {
        let m = info_marker_bytes();
        if n - 5 != m.len() {
            assert(b@.subrange(5, n as int).len() != info_marker().len());
            return None;
        }
        let mut i: usize = 0;
        while i < m.len()
            invariant
                i <= m@.len(),
                n == b@.len(),
                n - 5 == m@.len(),
                m@ == info_marker(),
                forall|k: int| 0 <= k < i ==> b@[5 + k] == m@[k],
            decreases m@.len() - i,
        {
            if b[5 + i] != m[i] {
                assert(b@.subrange(5, n as int)[i as int] != info_marker()[i as int]);
                return None;
            }
            i = i + 1;
        }
        assert(b@.subrange(5, n as int) =~= info_marker());
        Some((Request::INFO, None))
    } else if (op == 0x55 || op == 0x56) && n == 9 {
        let token = read_u32(b, 5);
        if op == 0x55 {
            Some((Request::PLAYERS, Some(token)))
        } else {
            Some((Request::RULES, Some(token)))
        }
    } else {
        None
    }
}

/// Decoding an encoded request gives back its kind and, for PLAYERS and
/// RULES, its challenge token.
pub proof fn lemma_request_round_trip(kind: Request, challenge: u32)
    ensures
        decoded_request(request_bytes(kind, challenge)) == Some(
            (
                kind,
                match kind {
                    Request::INFO => None,
                    _ => Some(challenge),
                },
            ),
        ),
{
    let b = request_bytes(kind, challenge);
    assert(b.subrange(0, 4) =~= simple_header());
    assert(b[4] == opcode_of(kind));
    assert(b.subrange(5, b.len() as int) =~= request_payload(kind, challenge));
    if kind != Request::INFO {
        lemma_le32_bytes(challenge);
        assert(le32(b, 5) == le32(le32_bytes(challenge), 0));
    }
}

} // verus!
