//! The constant-lookup type-signature cache: pre-hashed signatures, a
//! registry keyed by hash, and the category compatibility rules.

use vstd::prelude::*;

use crate::errors::ProveItError;
use vstd::string::StringSliceAdditionalSpecFns;

verus! {

/// The category of a cached type.
#[derive(Debug, Clone, Copy, PartialEq, Eq, Hash, Structural)]
pub enum TypeCategory {
    /// Base types.
    Base,
    /// Function types.
    Function,
    /// Product types.
    Product,
    /// Sum types.
    Sum,
    /// Universes, with their level.
    Universe(usize),
    /// Path types.
    Path,
}

/// A numeric tag for a category, folded into the hash.
pub open spec fn cat_tag(c: TypeCategory) -> u64 {
    match c {
        TypeCategory::Base => 1,
        TypeCategory::Function => 2,
        TypeCategory::Product => 3,
        TypeCategory::Sum => 4,
        TypeCategory::Path => 5,
        TypeCategory::Universe(n) => (6 + n) as u64,
    }
}

/// A 64-bit fold over bytes with wrapping arithmetic.
pub open spec fn fold_hash(bytes: Seq<u8>) -> u64
    decreases bytes,
{
    if bytes.len() == 0 {
        0xcbf29ce484222325u64
    } else {
        (((fold_hash(bytes.drop_last()) ^ (bytes.last() as u64)) as int * 0x100000001b3) % 0x10000000000000000) as u64
    }
}

/// The signature hash: the byte fold of the description combined with the
/// category tag.
pub open spec fn sig_hash_s(category: TypeCategory, bytes: Seq<u8>) -> u64 {
    fold_hash(bytes) ^ cat_tag(category)
}

/// A pre-hashed type signature.
#[derive(Debug, Clone)]
pub struct TypeSignature {
    /// Its category.
    pub category: TypeCategory,
    /// Its lookup hash.
    pub hash: u64,
    /// A human-readable description.
    pub description: String,
}

/// View of a signature.
#[verifier::ext_equal]
pub struct TypeSignatureV {
    pub category: TypeCategory,
    pub hash: u64,
    pub description: Seq<char>,
}

impl DeepView for TypeSignature {
    type V = TypeSignatureV;

    open spec fn deep_view(&self) -> TypeSignatureV {
        TypeSignatureV { category: self.category, hash: self.hash, description: self.description@ }
    }
}

impl TypeSignature {
    /// Builds a signature, hashing the category and the description.
    pub fn new(category: TypeCategory, description: String) -> (r: Self)
        requires
            category matches TypeCategory::Universe(n) ==> n < usize::MAX - 6,
        ensures
            r.category == category,
            r.description@ == description@,
            r.hash == sig_hash_s(category, vstd::utf8::encode_utf8(description@)),
    {
        let bytes = description.as_str().as_bytes();
        let mut h: u64 = 0xcbf29ce484222325u64;
        let mut i: usize = 0;
        proof {
            assert(bytes@.subrange(0, 0) =~= Seq::<u8>::empty());
        }
        while i < bytes.len()
            invariant
                i <= bytes@.len(),
                h == fold_hash(bytes@.subrange(0, i as int)),
            decreases bytes@.len() - i,
        {
            let b = bytes[i];
            h = (h ^ (b as u64)).wrapping_mul(0x100000001b3u64);
            proof {
                assert(bytes@.subrange(0, i + 1 as int).drop_last() =~= bytes@.subrange(
                    0,
                    i as int,
                ));
                assert(bytes@.subrange(0, i + 1 as int).last() == bytes@[i as int]);
            }
            i = i + 1;
        }
        proof {
            assert(bytes@.subrange(0, bytes@.len() as int) =~= bytes@);
        }
        let tag: u64 = match category {
            TypeCategory::Base => 1,
            TypeCategory::Function => 2,
            TypeCategory::Product => 3,
            TypeCategory::Sum => 4,
            TypeCategory::Path => 5,
            TypeCategory::Universe(n) => (6 + n) as u64,
        };
        let hash = h ^ tag;
        TypeSignature { category, hash, description }
    }
}

/// Views of the registry entries.
pub open spec fn sigs_view(s: Seq<(u64, TypeSignature)>) -> Seq<(u64, TypeSignatureV)>
    decreases s,
{
    if s.len() == 0 {
        Seq::empty()
    } else {
        sigs_view(s.drop_last()).push((s.last().0, s.last().1.deep_view()))
    }
}

/// Index characterisation of `sigs_view`.
pub proof fn lemma_sigs_view(s: Seq<(u64, TypeSignature)>)
    ensures
        sigs_view(s).len() == s.len(),
        forall|i: int|
            0 <= i < s.len() ==> #[trigger] sigs_view(s)[i] == (s[i].0, s[i].1.deep_view()),
    decreases s,
{
    if s.len() > 0 {
        lemma_sigs_view(s.drop_last());
    }
}

/// The first registered signature under a hash.
pub open spec fn find_sig(s: Seq<(u64, TypeSignatureV)>, h: u64) -> Option<TypeSignatureV>
    decreases s.len(),
{
    if s.len() == 0 {
        None
    } else if s[0].0 == h {
        Some(s[0].1)
    } else {
        find_sig(s.skip(1), h)
    }
}

/// Compatibility of two categories: like goes with like, and a universe
/// embeds in any universe of equal or higher level, up to level nine.
pub open spec fn compat_s(a: TypeCategory, b: TypeCategory) -> bool {
    match (a, b) {
        (TypeCategory::Base, TypeCategory::Base) => true,
        (TypeCategory::Function, TypeCategory::Function) => true,
        (TypeCategory::Product, TypeCategory::Product) => true,
        (TypeCategory::Sum, TypeCategory::Sum) => true,
        (TypeCategory::Path, TypeCategory::Path) => true,
        (TypeCategory::Universe(i), TypeCategory::Universe(j)) => i <= j && i < 10 && j < 10,
        _ => false,
    }
}

/// The constant-lookup type checker: a registry of signatures keyed by hash,
/// compared by hash or category compatibility.
#[derive(Debug)]
pub struct NeuralTypeChecker {
    /// The registered signatures, keyed by hash, in registration order.
    pub type_cache: Vec<(u64, TypeSignature)>,
}

impl NeuralTypeChecker {
    /// An empty registry.
    pub fn new() -> (r: Self)
        ensures
            r.type_cache@.len() == 0,
    {
        NeuralTypeChecker { type_cache: Vec::new() }
    }

    /// Registers a signature under its hash.
    pub fn register_type(&mut self, signature: TypeSignature)
        requires
            old(self).type_cache@.len() < usize::MAX,
        ensures
            sigs_view(final(self).type_cache@) == sigs_view(old(self).type_cache@).push(
                (signature.deep_view().hash, signature.deep_view()),
            ),
    {
        let ghost pre = self.type_cache@;
        let h = signature.hash;
        self.type_cache.push((h, signature));
        proof {
            assert(self.type_cache@.drop_last() =~= pre);
        }
    }

    /// Whether two signatures are compatible: equal hashes always are, and
    /// otherwise the categories decide.
    pub fn check_compatible(&self, sig1: &TypeSignature, sig2: &TypeSignature) -> (r: Result<
        bool,
        ProveItError,
    >)
        ensures
            r matches Ok(b) && b == (sig1.hash == sig2.hash || compat_s(
                sig1.category,
                sig2.category,
            )),
    {
        if sig1.hash == sig2.hash {
            return Ok(true);
        }
        let compatible = match (&sig1.category, &sig2.category) {
            (TypeCategory::Base, TypeCategory::Base) => true,
            (TypeCategory::Function, TypeCategory::Function) => true,
            (TypeCategory::Product, TypeCategory::Product) => true,
            (TypeCategory::Sum, TypeCategory::Sum) => true,
            (TypeCategory::Path, TypeCategory::Path) => true,
            (TypeCategory::Universe(i), TypeCategory::Universe(j)) => *i <= *j && *i < 10 && *j
                < 10,
            _ => false,
        };
        Ok(compatible)
    }

    /// Whether a signature is registered under the hash.
    pub fn verify_type(&self, hash: u64) -> (r: Result<bool, ProveItError>)
        ensures
            r matches Ok(b) && b == (find_sig(sigs_view(self.type_cache@), hash) is Some),
    {
        match self.get_type(hash) {
            Some(_) => Ok(true),
            None => Ok(false),
        }
    }

    /// The first signature registered under the hash, if any.
    pub fn get_type(&self, hash: u64) -> (r: Option<&TypeSignature>)
        ensures
            match r {
                Some(sig) => find_sig(sigs_view(self.type_cache@), hash) == Some(sig.deep_view()),
                None => find_sig(sigs_view(self.type_cache@), hash) is None,
            },
    {
        let ghost sv = sigs_view(self.type_cache@);
        proof {
            lemma_sigs_view(self.type_cache@);
        }
        let mut i: usize = 0;
        while i < self.type_cache.len()
            invariant
                i <= self.type_cache@.len(),
                sv == sigs_view(self.type_cache@),
                sv.len() == self.type_cache@.len(),
                forall|j: int|
                    0 <= j < sv.len() ==> #[trigger] sv[j] == (
                        self.type_cache@[j].0,
                        self.type_cache@[j].1.deep_view(),
                    ),
                forall|j: int| 0 <= j < i ==> (#[trigger] sv[j]).0 != hash,
            decreases self.type_cache@.len() - i,
        {
            if self.type_cache[i].0 == hash {
                proof {
                    lemma_find_sig_skip(sv, hash, i as int);
                    assert(sv.skip(i as int).len() > 0);
                    assert(sv.skip(i as int)[0] == sv[i as int]);
                }
                return Some(&self.type_cache[i].1);
            }
            i = i + 1;
        }
        proof {
            lemma_find_sig_skip(sv, hash, i as int);
            assert(sv.skip(i as int).len() == 0);
        }
        None
    }

    /// A description of the signature under the hash, or a placeholder.
    pub fn describe_type(&self, hash: u64) -> (r: String)
        ensures
            match find_sig(sigs_view(self.type_cache@), hash) {
                Some(sig) => r@ == sig.description,
                None => r@ == "unknown type"@,
            },
    {
        match self.get_type(hash) {
            Some(sig) => sig.description.clone(),
            None => {
                proof {
                    reveal_strlit("unknown type");
                }
                "unknown type".to_owned()
            },
        }
    }
}

/// Skipping unmatched entries leaves the find unchanged.
proof fn lemma_find_sig_skip(s: Seq<(u64, TypeSignatureV)>, h: u64, i: int)
    requires
        0 <= i <= s.len(),
        forall|j: int| 0 <= j < i ==> (#[trigger] s[j]).0 != h,
    ensures
        find_sig(s, h) == find_sig(s.skip(i), h),
    decreases i,
{
    if i > 0 {
        lemma_find_sig_skip(s.skip(1), h, i - 1);
        assert(s.skip(1).skip(i - 1) =~= s.skip(i));
    } else {
        assert(s.skip(0) =~= s);
    }
}

} // verus!
