//! The node identity: a random seed and the public key derived from it.

use sha2::Digest;
use vstd::prelude::*;

verus! {

/// The length of the seed and of the public key, in bytes.
pub const KEY_LEN: usize = 32;

/// The SHA-256 digest of `bytes`.
pub uninterp spec fn sha256_digest(bytes: Seq<u8>) -> Seq<u8>;

/// `sha2::Sha256::digest`: the SHA-256 digest of `bytes`, which is 32 bytes
/// long. The digest is named, not written out.
#[verifier::external_body]
fn sha256(bytes: &[u8]) -> (d: [u8; 32])
    ensures
        d@ == sha256_digest(bytes@),
{
    sha2::Sha256::digest(bytes).into()
}

/// `rand::thread_rng().fill_bytes` on 32 bytes: they come from the thread's
/// cryptographic generator, so nothing is stated of them.
#[verifier::external_body]
fn random_key_bytes() -> (bytes: [u8; 32]) {
    let mut bytes = [0u8; 32];
    rand::RngCore::fill_bytes(&mut rand::thread_rng(), &mut bytes);
    bytes
}

/// The identity as contracts see it.
pub struct IdentityView {
    pub seed: Seq<u8>,
    pub public_key: Seq<u8>,
    pub name: Seq<char>,
    pub initialized: bool,
}

/// The node's identity: a secret seed, the public key derived from it, and
/// a name. It is initialized once a seed has been generated or loaded.
pub struct Identity {
    pub seed: [u8; 32],
    pub public_key: [u8; 32],
    pub name: String,
    initialized: bool,
}

impl View for Identity {
    type V = IdentityView;

    closed spec fn view(&self) -> IdentityView {
        IdentityView {
            seed: self.seed@,
            public_key: self.public_key@,
            name: self.name@,
            initialized: self.initialized,
        }
    }
}

/// 32 zero bytes.
pub open spec fn zero_key() -> Seq<u8> {
    Seq::new(32, |i: int| 0u8)
}

/// The bytes of an optional stored value.
pub open spec fn stored_view(o: Option<Vec<u8>>) -> Option<Seq<u8>> {
    match o {
        Some(v) => Some(v@),
        None => None,
    }
}

/// What `generate` makes of an identity: a seed of 32 bytes, its SHA-256
/// digest as the public key, the same name, and initialized.
pub open spec fn generated(before: IdentityView, after: IdentityView) -> bool {
    &&& after.public_key == sha256_digest(after.seed)
    &&& after.seed.len() == 32
    &&& after.name == before.name
    &&& after.initialized
}

/// Whether a stored seed is long enough to load.
pub open spec fn seed_loads(seed: Option<Seq<u8>>) -> bool {
    seed matches Some(s) && s.len() >= 32
}

/// What loading the stored `seed` and public key `pk` makes of `id`:
/// nothing changes without a seed of at least 32 bytes; otherwise the seed
/// is its first 32 bytes, the public key the first 32 bytes of the stored
/// one when that has at least 32, else derived from the seed, and the
/// identity is initialized.
pub open spec fn after_load(id: IdentityView, seed: Option<Seq<u8>>, pk: Option<Seq<u8>>) -> IdentityView {
    if seed_loads(seed) {
        let s = seed->0.take(32);
        IdentityView {
            seed: s,
            public_key: match pk {
                Some(p) => if p.len() >= 32 {
                    p.take(32)
                } else {
                    sha256_digest(s)
                },
                None => sha256_digest(s),
            },
            name: id.name,
            initialized: true,
        }
    } else {
        id
    }
}

/// The public key of `seed`: its SHA-256 digest.
pub fn derive_public_key(seed: &[u8; 32]) -> (pk: [u8; 32])
    ensures
        pk@ == sha256_digest(seed@),
{
    sha256(seed.as_slice())
}

/// The first 32 bytes of `s`.
fn first_key_bytes(s: &[u8]) -> (k: [u8; 32])
    requires
        s@.len() >= 32,
    ensures
        k@ == s@.take(32),
{
    let mut k = [0u8; 32];
    let mut i: usize = 0;
    while i < 32
        invariant
            i <= 32,
            s@.len() >= 32,
            forall|j: int| 0 <= j < i ==> k@[j] == s@[j],
        decreases 32 - i,
    {
        k[i] = s[i];
        i = i + 1;
    }
    assert(k@ =~= s@.take(32));
    k
}

impl Identity {
    /// An identity named `name` with no key yet: seed and public key are
    /// zero and it is not initialized.
    pub fn new(name: String) -> (id: Self)
        ensures
            id@ == (IdentityView { seed: zero_key(), public_key: zero_key(), name: name@, initialized: false }),
    {
        let id = Identity { seed: [0u8; 32], public_key: [0u8; 32], name, initialized: false };
        assert(id@.seed =~= zero_key());
        id
    }

    /// Whether a seed has been generated or loaded.
    pub fn is_initialized(&self) -> (r: bool)
        ensures
            r == self@.initialized,
    {
        self.initialized
    }

    /// Draws a fresh random seed and derives its public key.
    pub fn generate(&mut self)
        ensures
            generated(old(self)@, final(self)@),
    {
        self.seed = random_key_bytes();
        self.public_key = derive_public_key(&self.seed);
        self.initialized = true;
    }

    /// Takes the identity from what the store holds under the seed and the
    /// public-key entries. Without a stored seed of at least 32 bytes
    /// nothing changes and the result is `false`. Otherwise the seed is its
    /// first 32 bytes, the public key the first 32 bytes of the stored one
    /// when that has at least 32, else derived from the seed; the identity
    /// is initialized and the result is `true`.
    pub fn load_from_db(&mut self, stored_seed: Option<Vec<u8>>, stored_pk: Option<Vec<u8>>) -> (loaded: bool)
        ensures
            loaded == seed_loads(stored_view(stored_seed)),
            final(self)@ == after_load(old(self)@, stored_view(stored_seed), stored_view(stored_pk)),
    {
        match stored_seed {
            Some(s) => {
                if s.len() < KEY_LEN {
                    return false;
                }
                self.seed = first_key_bytes(s.as_slice());
                self.public_key = match stored_pk {
                    Some(p) => {
                        if p.len() >= KEY_LEN {
                            first_key_bytes(p.as_slice())
                        } else {
                            derive_public_key(&self.seed)
                        }
                    },
                    None => derive_public_key(&self.seed),
                };
                self.initialized = true;
                true
            },
            None => false,
        }
    }
}

/// Something done to an identity: `generate`, or `load_from_db` with the
/// stored seed and public key.
pub enum IdentityOp {
    Generate,
    Load { seed: Option<Seq<u8>>, pk: Option<Seq<u8>> },
}

/// Whether `after` is what `op` may make of `before`, as the contracts of
/// `generate` and `load_from_db` say.
pub open spec fn op_step(op: IdentityOp, before: IdentityView, after: IdentityView) -> bool {
    match op {
        IdentityOp::Generate => generated(before, after),
        IdentityOp::Load { seed, pk } => after == after_load(before, seed, pk),
    }
}

/// Whether `op` initializes an identity: a generation, or a load that
/// succeeds.
pub open spec fn op_initializes(op: IdentityOp) -> bool {
    match op {
        IdentityOp::Generate => true,
        IdentityOp::Load { seed, .. } => seed_loads(seed),
    }
}

/// An identity is initialized exactly when it started so, or a generation
/// or a successful load came since; and once initialized it stays so.
/// `views[i + 1]` is what `ops[i]` made of `views[i]`.
pub proof fn lemma_initialized_by_generate_or_load(views: Seq<IdentityView>, ops: Seq<IdentityOp>)
    requires
        views.len() == ops.len() + 1,
        forall|i: int| 0 <= i < ops.len() ==> op_step(#[trigger] ops[i], views[i], views[i + 1]),
    ensures
        views.last().initialized == (views[0].initialized || exists|i: int|
            0 <= i < ops.len() && op_initializes(#[trigger] ops[i])),
        forall|i: int, j: int|
            0 <= i <= j < views.len() && #[trigger] views[i].initialized ==> #[trigger] views[j].initialized,
    decreases ops.len(),
{
    if ops.len() > 0 {
        let n = ops.len() - 1;
        let vs = views.drop_last();
        let os = ops.drop_last();
        assert forall|i: int| 0 <= i < os.len() implies op_step(#[trigger] os[i], vs[i], vs[i + 1]) by {
            assert(os[i] == ops[i] && vs[i] == views[i] && vs[i + 1] == views[i + 1]);
        }
        lemma_initialized_by_generate_or_load(vs, os);
        assert(op_step(ops[n], views[n], views[n + 1]));
        assert(vs.last() == views[n]);
        if op_initializes(ops[n]) {
            assert(views.last().initialized);
        } else {
            assert(views.last() == views[n]);
            if exists|i: int| 0 <= i < ops.len() && op_initializes(#[trigger] ops[i]) {
                let i = choose|i: int| 0 <= i < ops.len() && op_initializes(#[trigger] ops[i]);
                assert(i < os.len() && os[i] == ops[i]);
            }
        }
        assert forall|i: int, j: int|
            0 <= i <= j < views.len() && #[trigger] views[i].initialized implies #[trigger] views[j].initialized by {
            if j < views.len() - 1 {
                assert(vs[i] == views[i] && vs[j] == views[j]);
            } else if i < j {
                assert(vs[i] == views[i]);
                assert(vs[n].initialized);
                assert(op_step(ops[n], views[n], views[n + 1]));
            }
        }
    }
}

/// What was saved loads back: loading the seed and public key of an
/// identity into any other gives that seed and key, keeps the other's name,
/// and initializes it.
pub proof fn lemma_saved_identity_loads_back(saved: IdentityView, other: IdentityView)
    requires
        saved.seed.len() == 32,
        saved.public_key.len() == 32,
    ensures
        seed_loads(Some(saved.seed)),
        after_load(other, Some(saved.seed), Some(saved.public_key)) == (IdentityView {
            seed: saved.seed,
            public_key: saved.public_key,
            name: other.name,
            initialized: true,
        }),
{
    assert(saved.seed.take(32) =~= saved.seed);
    assert(saved.public_key.take(32) =~= saved.public_key);
}

} // verus!
