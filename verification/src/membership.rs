//! The membership prover's output shape: an ordered list of path/value pairs
//! bound to an app hash. The pairs pass through verbatim and in order.

use vstd::prelude::*;

verus! {

/// One proven key/value pair: the path components of the state key, and the
/// value stored under it.
pub struct KVPair {
    pub path: Vec<Vec<u8>>,
    pub value: Vec<u8>,
}

/// Mathematical model of a key/value pair.
#[verifier::ext_equal]
pub ghost struct KVPairModel {
    pub path: Seq<Seq<u8>>,
    pub value: Seq<u8>,
}

impl View for KVPair {
    type V = KVPairModel;

    open spec fn view(&self) -> KVPairModel {
        KVPairModel {
            path: self.path@.map_values(|p: Vec<u8>| p@),
            value: self.value@,
        }
    }
}

/// The membership prover's public output: the state root it speaks of, and
/// the proven pairs.
pub struct MembershipOutput {
    pub commitment_root: Vec<u8>,
    pub kv_pairs: Vec<KVPair>,
}

/// The store prefix every membership query is proven under, in ASCII:
/// `ibc`.
pub open spec fn spec_ibc_prefix() -> Seq<u8> {
    seq![0x69u8, 0x62u8, 0x63u8]
}

/// Builds the full proof path of each requested key: the store prefix, then
/// the key, in request order.
pub fn membership_paths(key_paths: Vec<Vec<u8>>) -> (r: Vec<Vec<Vec<u8>>>)
    ensures
        r@.len() == key_paths@.len(),
        forall|i: int|
            0 <= i < key_paths@.len() ==> (#[trigger] r@[i])@.map_values(|p: Vec<u8>| p@)
                == seq![spec_ibc_prefix(), key_paths@[i]@],
{
    let ghost orig = key_paths@;
    let mut rest = key_paths;
    let mut out: Vec<Vec<Vec<u8>>> = Vec::new();
    while rest.len() > 0
        invariant
            out@.len() + rest@.len() == orig.len(),
            rest@ == orig.skip(out@.len() as int),
            forall|i: int|
                0 <= i < out@.len() ==> (#[trigger] out@[i])@.map_values(|p: Vec<u8>| p@)
                    == seq![spec_ibc_prefix(), orig[i]@],
        decreases rest@.len(),
    {
        let key = rest.remove(0);
        proof {
            assert(orig.skip(out@.len() as int)[0] == orig[out@.len() as int]);
        }
        let mut prefix: Vec<u8> = Vec::new();
        prefix.push(0x69);
        prefix.push(0x62);
        prefix.push(0x63);
        proof {
            assert(prefix@ =~= spec_ibc_prefix());
        }
        let mut path: Vec<Vec<u8>> = Vec::new();
        path.push(prefix);
        path.push(key);
        proof {
            assert(path@.map_values(|p: Vec<u8>| p@) =~= seq![
                spec_ibc_prefix(),
                orig[out@.len() as int]@,
            ]);
        }
        out.push(path);
        proof {
            assert(rest@ =~= orig.skip(out@.len() as int));
        }
    }
    out
}

/// Builds the membership output from the requested pairs.
///
/// The output binds the given app hash and carries one pair per request, in
/// request order, with paths and values verbatim.
pub fn membership(app_hash: Vec<u8>, requests: Vec<(Vec<Vec<u8>>, Vec<u8>)>) -> (r:
    MembershipOutput)
    ensures
        r.commitment_root@ == app_hash@,
        r.kv_pairs@.len() == requests@.len(),
        forall|i: int|
            0 <= i < requests@.len() ==> {
                &&& (#[trigger] r.kv_pairs@[i])@.path == requests@[i].0@.map_values(
                    |p: Vec<u8>| p@,
                )
                &&& r.kv_pairs@[i]@.value == requests@[i].1@
            },
{
    let ghost orig = requests@;
    let mut rest = requests;
    let mut kv_pairs: Vec<KVPair> = Vec::new();
    while rest.len() > 0
        invariant
            kv_pairs@.len() + rest@.len() == orig.len(),
            rest@ == orig.skip(kv_pairs@.len() as int),
            forall|i: int|
                0 <= i < kv_pairs@.len() ==> {
                    &&& (#[trigger] kv_pairs@[i])@.path == orig[i].0@.map_values(
                        |p: Vec<u8>| p@,
                    )
                    &&& kv_pairs@[i]@.value == orig[i].1@
                },
        decreases rest@.len(),
    {
        let (path, value) = rest.remove(0);
        proof {
            assert(orig.skip(kv_pairs@.len() as int)[0] == orig[kv_pairs@.len() as int]);
        }
        kv_pairs.push(KVPair { path, value });
        proof {
            assert(rest@ =~= orig.skip(kv_pairs@.len() as int));
        }
    }
    MembershipOutput { commitment_root: app_hash, kv_pairs }
}

} // verus!
