//! Recipient resolution: a recipient string is a bitcoin address, a
//! space-address (the library spells one as `space:` followed by the hex of
//! the script it binds to), or a space name looked up in the state
//! snapshot. The first form that matches wins; anything else is an error.

use vstd::prelude::*;

use crate::encoding::{copy_range, decoded_bytes, first_non_hex};
use crate::state::{find_space, sha256_of, sname_encoding, sname_parses, LiveSnapshot, SName};

verus! {

use vstd::string::StringSliceAdditionalSpecFns;

/// The network addresses are checked against.
#[derive(Debug, Clone, Copy, PartialEq, Eq, Structural)]
pub enum ChainNet {
    Mainnet,
    Testnet,
    Signet,
    Regtest,
}

pub open spec fn net_code(n: ChainNet) -> int {
    match n {
        ChainNet::Mainnet => 0,
        ChainNet::Testnet => 1,
        ChainNet::Signet => 2,
        ChainNet::Regtest => 3,
    }
}

/// Whether bitcoin's address grammar accepts the text (on any network).
pub uninterp spec fn addr_parses(s: Seq<char>) -> bool;

/// The script of a textual address once checked against a network: absent
/// when the address is not usable on that network.
pub uninterp spec fn addr_script_for(s: Seq<char>, net: int) -> Option<Seq<u8>>;

/// Relies on bitcoin's address handling — `Address::from_str`,
/// `Address::require_network` and `Address::script_pubkey` — taken
/// together as one resolution step: whether a text parses, and which script
/// it pays to on a given network, depend on the text and the network alone.
/// `None`: the text is not an address. `Some(None)`: an address, but not
/// valid for this network.
#[verifier::external_body]
fn parse_address_script(s: &str, net: ChainNet) -> (r: Option<Option<Vec<u8>>>)
    ensures
        (r is Some) == addr_parses(s@),
        r matches Some(inner) ==> (match addr_script_for(s@, net_code(net)) {
            Some(b) => inner matches Some(v) && v@ == b,
            None => inner is None,
        }),
{
    let unchecked: bitcoin::Address<bitcoin::address::NetworkUnchecked> = s.parse().ok()?;
    let network = match net {
        ChainNet::Mainnet => bitcoin::Network::Bitcoin,
        ChainNet::Testnet => bitcoin::Network::Testnet,
        ChainNet::Signet => bitcoin::Network::Signet,
        ChainNet::Regtest => bitcoin::Network::Regtest,
    };
    match unchecked.require_network(network) {
        Ok(a) => Some(Some(a.script_pubkey().into_bytes())),
        Err(_) => Some(None),
    }
}

/// The script a space-address spells: `space:` followed by the script in
/// hex (even length, at least one byte).
pub open spec fn space_address_script(s: Seq<u8>) -> Option<Seq<u8>> {
    let prefix = ("space:").spec_bytes();
    if s.len() > prefix.len() && s.subrange(0, prefix.len() as int) == prefix {
        let rest = s.skip(prefix.len() as int);
        if rest.len() % 2 == 0 && first_non_hex(rest, 0, rest.len() as int) == rest.len() {
            Some(decoded_bytes(rest))
        } else {
            None
        }
    } else {
        None
    }
}

proof fn lemma_space_prefix_bytes()
    ensures
        ("space:").spec_bytes().len() == 6,
{
    reveal_strlit("space:");
    assert(vstd::utf8::is_ascii_chars(("space:")@));
    vstd::string::is_ascii_spec_bytes("space:");
}

/// Reads a space-address, exactly as [`space_address_script`] does.
pub fn parse_space_address(s: &str) -> (r: Option<Vec<u8>>)
    ensures
        match space_address_script(s.spec_bytes()) {
            Some(b) => r matches Some(v) && v@ == b,
            None => r is None,
        },
{
    proof {
        lemma_space_prefix_bytes();
    }
    let bytes = s.as_bytes_vec();
    let prefix = ("space:").as_bytes_vec();
    if !(bytes.len() > prefix.len()) {
        return None;
    }
    let head = copy_range(&bytes, 0, prefix.len());
    if !crate::state::bytes_eq(&head, &prefix) {
        proof {
            assert(head@ =~= bytes@.subrange(0, prefix@.len() as int));
        }
        return None;
    }
    proof {
        assert(head@ =~= bytes@.subrange(0, prefix@.len() as int));
    }
    let rest = copy_range(&bytes, prefix.len(), bytes.len());
    proof {
        assert(rest@ =~= bytes@.skip(prefix@.len() as int));
    }
    if rest.len() % 2 != 0 {
        return None;
    }
    match crate::encoding::hex_to_bytes(rest) {
        Ok(v) => Some(v),
        Err(_) => None,
    }
}

/// Why a recipient string was refused.
#[derive(Debug, Clone, Copy, PartialEq, Eq, Structural)]
pub enum ResolveError {
    /// A plain bitcoin address was given where a space address is required.
    MustBeSpaceAddress,
    /// The address does not belong to the configured network.
    AddressNotValidForNetwork,
    /// Neither an address, a space-address, nor a well-formed space name.
    NotAValidNameOrAddress,
}

/// What `resolve` answers: first a bitcoin address (refused outright when a
/// space address is required, or when it is not usable on the network);
/// then a space-address; then a space name, hashed and looked up in the
/// snapshot — an unknown name resolves to nothing rather than failing.
pub open spec fn resolve_spec(
    net: int,
    spaces: Seq<(Vec<u8>, crate::state::FullSpaceOut)>,
    to_chars: Seq<char>,
    to_bytes: Seq<u8>,
    require_space_address: bool,
) -> Result<Option<Seq<u8>>, ResolveError> {
    if addr_parses(to_chars) {
        if require_space_address {
            Err(ResolveError::MustBeSpaceAddress)
        } else {
            match addr_script_for(to_chars, net) {
                Some(b) => Ok(Some(b)),
                None => Err(ResolveError::AddressNotValidForNetwork),
            }
        }
    } else {
        match space_address_script(to_bytes) {
            Some(sc) => Ok(Some(sc)),
            None => {
                if !sname_parses(to_bytes) {
                    Err(ResolveError::NotAValidNameOrAddress)
                } else {
                    let h = sha256_of(sname_encoding(to_bytes.skip(1)));
                    match find_space(spaces, h) {
                        None => Ok(None),
                        Some(full) => Ok(Some(full.spaceout.script_pubkey@)),
                    }
                }
            },
        }
    }
}

/// Resolves a recipient to the script it pays to, as [`resolve_spec`]
/// says: `Ok(None)` only for a well-formed space name the snapshot does not
/// know.
pub fn resolve(
    network: ChainNet,
    store: &LiveSnapshot,
    to: &str,
    require_space_address: bool,
) -> (r: Result<Option<Vec<u8>>, ResolveError>)
    ensures
        ({
            let sp = resolve_spec(
                net_code(network),
                store.spaces@,
                to@,
                to.spec_bytes(),
                require_space_address,
            );
            match r {
                Ok(o) => match o {
                    Some(v) => sp matches Ok(b) && b matches Some(bb) && v@ == bb,
                    None => sp == Ok::<Option<Seq<u8>>, ResolveError>(None),
                },
                Err(e) => sp == Err::<Option<Seq<u8>>, ResolveError>(e),
            }
        }),
{
    match parse_address_script(to, network) {
        Some(inner) => {
            if require_space_address {
                return Err(ResolveError::MustBeSpaceAddress);
            }
            match inner {
                Some(script) => Ok(Some(script)),
                None => Err(ResolveError::AddressNotValidForNetwork),
            }
        },
        None => {
            match parse_space_address(to) {
                Some(script) => Ok(Some(script)),
                None => {
                    let name = match SName::from_str(to) {
                        Some(n) => n,
                        None => {
                            return Err(ResolveError::NotAValidNameOrAddress);
                        },
                    };
                    let hash = crate::state::space_hash(&name);
                    match store.get_space_info(&hash) {
                        None => Ok(None),
                        Some(full) => Ok(Some(full.spaceout.script_pubkey.clone())),
                    }
                },
            }
        },
    }
}

} // verus!
