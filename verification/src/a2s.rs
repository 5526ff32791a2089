//! The challenge/retry driver: the fixed request bytes of each query
//! kind, the splicing of a server-issued challenge token into a request
//! template, and the classification of each logical response as a
//! challenge to answer, a payload to decode, or a protocol error.
use vstd::prelude::*;
use vstd::assert_seqs_equal;

use crate::misc::ServerQueryError;
use crate::misc::sub_bytes;

verus! {

/// The response-type marker a challenge reply carries.
pub const CHALLENGE_MARKER: u8 = 0x41;

/// A logical response that demands a challenge handshake: the challenge
/// marker followed by at least four token bytes.
pub open spec fn is_challenge(b: Seq<u8>) -> bool {
    b.len() >= 5 && b[0] == CHALLENGE_MARKER
}

/// The four token bytes of a challenge response.
pub open spec fn challenge_token(b: Seq<u8>) -> Seq<u8> {
    b.subrange(1, 5)
}

/// A template with a token written into its challenge slot — the
/// `tok.len()` bytes at the template's end.
pub open spec fn spliced(template: Seq<u8>, tok: Seq<u8>) -> Seq<u8> {
    template.subrange(0, template.len() - tok.len()) + tok
}

/// Writes a challenge token into the slot at the end of a request buffer.
pub fn set_challenge(buf: &mut Vec<u8>, challenge: &Vec<u8>)
    requires
        challenge@.len() <= old(buf)@.len(),
    ensures
        final(buf)@ == spliced(old(buf)@, challenge@),
{
    let offset = buf.len() - challenge.len();
    let mut j: usize = offset;
    while j < buf.len()
        invariant
            offset == buf@.len() - challenge@.len(),
            offset <= j <= buf@.len(),
            buf@.len() == old(buf)@.len(),
            forall|k: int| 0 <= k < offset ==> buf@[k] == old(buf)@[k],
            forall|k: int| offset <= k < j as int ==> buf@[k] == challenge@[k - offset],
        decreases buf@.len() - j,
    {
        let c = challenge[j - offset];
        buf[j] = c;
        j = j + 1;
    }
    proof {
        assert_seqs_equal!(buf@ == spliced(old(buf)@, challenge@));
    }
}

/// Law: writing a token into the challenge slot and reading the slot back
/// returns the token unchanged, whatever the slot's offset — that is, for
/// any token no longer than the template.
pub proof fn lemma_challenge_round_trip(template: Seq<u8>, tok: Seq<u8>)
    requires
        tok.len() <= template.len(),
    ensures
        spliced(template, tok).len() == template.len(),
        spliced(template, tok).subrange(
            template.len() - tok.len(),
            template.len() as int,
        ) == tok,
{
    assert_seqs_equal!(spliced(template, tok).subrange(
            template.len() - tok.len(),
            template.len() as int,
        ) == tok);
}

/// The three queries the protocol engine can perform.
#[derive(Clone, Copy, Debug, PartialEq, Eq, Structural)]
pub enum QueryKind {
    Info,
    Players,
    Rules,
}

impl QueryKind {
    /// The response-type marker a substantive reply to this query carries.
    pub open spec fn spec_marker(self) -> u8 {
        match self {
            QueryKind::Info => 0x49,
            QueryKind::Players => 0x44,
            QueryKind::Rules => 0x45,
        }
    }

    /// The bytes of the very first request of this query.
    pub open spec fn spec_initial_request(self) -> Seq<u8> {
        match self {
            QueryKind::Info => seq![
                0xffu8,
                0xff,
                0xff,
                0xff,
                0x54,
                0x53,
                0x6f,
                0x75,
                0x72,
                0x63,
                0x65,
                0x20,
                0x45,
                0x6e,
                0x67,
                0x69,
                0x6e,
                0x65,
                0x20,
                0x51,
                0x75,
                0x65,
                0x72,
                0x79,
                0x00,
            ],
            QueryKind::Players => seq![0xffu8, 0xff, 0xff, 0xff, 0x55, 0xff, 0xff, 0xff, 0xff],
            QueryKind::Rules => seq![0xffu8, 0xff, 0xff, 0xff, 0x56, 0xff, 0xff, 0xff, 0xff],
        }
    }

    /// The bytes of the resend template: the request whose last four bytes
    /// are the challenge slot.
    pub open spec fn spec_template(self) -> Seq<u8> {
        match self {
            QueryKind::Info => self.spec_initial_request() + seq![0xffu8, 0xff, 0xff, 0xff],
            QueryKind::Players => self.spec_initial_request(),
            QueryKind::Rules => self.spec_initial_request(),
        }
    }

    pub fn response_marker(self) -> (r: u8)
        ensures
            r == self.spec_marker(),
    {
        match self {
            QueryKind::Info => 0x49,
            QueryKind::Players => 0x44,
            QueryKind::Rules => 0x45,
        }
    }

    pub fn initial_request(self) -> (r: Vec<u8>)
        ensures
            r@ == self.spec_initial_request(),
    {
        match self {
            QueryKind::Info => {
                let r: Vec<u8> = vec![
                    0xff, 0xff, 0xff, 0xff, 0x54, 0x53, 0x6f, 0x75, 0x72, 0x63, 0x65, 0x20, 0x45,
                    0x6e, 0x67, 0x69, 0x6e, 0x65, 0x20, 0x51, 0x75, 0x65, 0x72, 0x79, 0x00,
                ];
                proof {
                    assert_seqs_equal!(r@ == QueryKind::Info.spec_initial_request());
                }
                r
            },
            QueryKind::Players => {
                let r: Vec<u8> = vec![0xff, 0xff, 0xff, 0xff, 0x55, 0xff, 0xff, 0xff, 0xff];
                proof {
                    assert_seqs_equal!(r@ == QueryKind::Players.spec_initial_request());
                }
                r
            },
            QueryKind::Rules => {
                let r: Vec<u8> = vec![0xff, 0xff, 0xff, 0xff, 0x56, 0xff, 0xff, 0xff, 0xff];
                proof {
                    assert_seqs_equal!(r@ == QueryKind::Rules.spec_initial_request());
                }
                r
            },
        }
    }

    pub fn template(self) -> (r: Vec<u8>)
        ensures
            r@ == self.spec_template(),
            r@.len() >= 4,
    {
        let mut r = self.initial_request();
        if let QueryKind::Info = self {
            r.push(0xff);
            r.push(0xff);
            r.push(0xff);
            r.push(0xff);
            proof {
                assert_seqs_equal!(r@ == QueryKind::Info.spec_template());
            }
        }
        r
    }
}

/// What the driver does with one logical response.
pub enum ExchangeStep {
    /// The server demanded a challenge: send these bytes — the template
    /// with the token spliced into its slot — and receive again.
    Resend(Vec<u8>),
    /// The expected response marker matched: decode this payload, the
    /// response without its marker byte.
    Deliver(Vec<u8>),
}

/// Classifies one logical response of the challenge/retry loop.
///
/// A challenge response yields the next request to send; a response that
/// opens with the expected marker yields its payload; anything else — an
/// empty response or a wrong marker — is invalid data, and exactly then.
pub fn handle_response(template: &Vec<u8>, response: &Vec<u8>, expected: u8) -> (r: Result<
    ExchangeStep,
    ServerQueryError,
>)
    requires
        template@.len() >= 4,
    ensures
        match r {
            Ok(ExchangeStep::Resend(req)) => is_challenge(response@) && req@ == spliced(
                template@,
                challenge_token(response@),
            ),
            Ok(ExchangeStep::Deliver(payload)) => {
                &&& !is_challenge(response@)
                &&& response@.len() >= 1
                &&& response@[0] == expected
                &&& payload@ == response@.subrange(1, response@.len() as int)
            },
            Err(e) => {
                &&& e == ServerQueryError::InvalidData
                &&& !is_challenge(response@)
                &&& (response@.len() == 0 || response@[0] != expected)
            },
        },
{
    if response.len() >= 5 && response[0] == CHALLENGE_MARKER {
        let token = sub_bytes(response, 1, 5);
        let mut req = sub_bytes(template, 0, template.len());
        proof {
            assert_seqs_equal!(req@ == template@);
        }
        set_challenge(&mut req, &token);
        Ok(ExchangeStep::Resend(req))
    } else if response.len() >= 1 && response[0] == expected {
        let payload = sub_bytes(response, 1, response.len());
        Ok(ExchangeStep::Deliver(payload))
    } else {
        Err(ServerQueryError::InvalidData)
    }
}

} // verus!
