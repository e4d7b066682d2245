//! Foundations shared with the hosts: identifiers, verifiable objects,
//! homotopy paths, cubes, universe levels and formal types.

use vstd::prelude::*;

use crate::errors::ProveItError;

verus! {

/// Unique identifier of a proof object.
#[derive(Debug, Clone, Copy, PartialEq, Eq, Hash, Structural)]
pub struct ProofId(pub u64);

/// An object that can check itself and describe itself.
pub trait Verifiable {
    /// Checks the object's own invariants.
    fn verify(&self) -> Result<bool, ProveItError>;

    /// A human-readable description.
    fn describe(&self) -> String;
}

/// A path between two proof objects, with a dimension.
#[derive(Debug, Clone, PartialEq, Eq, Structural)]
pub struct Path {
    /// Start of the path.
    pub start: ProofId,
    /// End of the path.
    pub end: ProofId,
    /// The path's dimension; ordinary paths have dimension 1.
    pub dimension: usize,
}

impl Path {
    /// A one-dimensional path.
    pub fn new(start: ProofId, end: ProofId) -> (r: Self)
        ensures
            r == (Path { start, end, dimension: 1 }),
    {
        Path { start, end, dimension: 1 }
    }

    /// A path of the given dimension.
    pub fn higher(start: ProofId, end: ProofId, dimension: usize) -> (r: Self)
        ensures
            r == (Path { start, end, dimension }),
    {
        Path { start, end, dimension }
    }
}

impl Verifiable for Path {
    /// A path is valid exactly when its dimension is at least 1.
    fn verify(&self) -> (r: Result<bool, ProveItError>)
        ensures
            r is Ok <==> self.dimension >= 1,
    {
        if self.dimension == 0 {
            let mut m = String::new();
            m.append("the dimension of a path must be at least 1");
            return Err(ProveItError::VerificationError(m));
        }
        Ok(true)
    }

    fn describe(&self) -> String {
        let mut s = String::new();
        s.append(crate::text::usize_to_string(self.dimension).as_str());
        s.append("-dimensional path from object ");
        s.append(crate::text::u64_to_string(self.start.0).as_str());
        s.append(" to object ");
        s.append(crate::text::u64_to_string(self.end.0).as_str());
        s
    }
}

/// A homotopy between two paths with shared endpoints.
#[derive(Debug, Clone, PartialEq, Eq, Structural)]
pub struct Homotopy {
    /// The first path.
    pub path1: Path,
    /// The second path.
    pub path2: Path,
}

impl Homotopy {
    /// A homotopy between two paths; their endpoints must agree.
    pub fn new(path1: Path, path2: Path) -> (r: Result<Self, ProveItError>)
        ensures
            r matches Ok(h) <==> path1.start == path2.start && path1.end == path2.end,
            r matches Ok(h) ==> h == (Homotopy { path1, path2 }),
    {
        if path1.start.0 != path2.start.0 || path1.end.0 != path2.end.0 {
            let mut m = String::new();
            m.append("the endpoints of a homotopy must match");
            return Err(ProveItError::VerificationError(m));
        }
        Ok(Homotopy { path1, path2 })
    }
}

impl Verifiable for Homotopy {
    /// A homotopy is valid when both paths are and the endpoints agree.
    fn verify(&self) -> (r: Result<bool, ProveItError>)
        ensures
            r is Ok <==> self.path1.dimension >= 1 && self.path2.dimension >= 1
                && self.path1.start == self.path2.start && self.path1.end == self.path2.end,
    {
        match self.path1.verify() {
            Ok(_) => {},
            Err(e) => {
                return Err(e);
            },
        };
        match self.path2.verify() {
            Ok(_) => {},
            Err(e) => {
                return Err(e);
            },
        };
        if self.path1.start.0 != self.path2.start.0 || self.path1.end.0 != self.path2.end.0 {
            let mut m = String::new();
            m.append("the endpoints of a homotopy must match");
            return Err(ProveItError::VerificationError(m));
        }
        Ok(true)
    }

    fn describe(&self) -> String {
        let mut s = String::new();
        s.append("homotopy between two paths: ");
        s.append(self.path1.describe().as_str());
        s.append(" and ");
        s.append(self.path2.describe().as_str());
        s
    }
}

/// A cube of the cubical structure, listing its faces.
#[derive(Debug, Clone)]
pub struct Cube {
    /// The cube's dimension.
    pub dimension: usize,
    /// The faces attached so far.
    pub faces: Vec<ProofId>,
}

impl Cube {
    /// A cube with no faces yet.
    pub fn new(dimension: usize) -> (r: Self)
        ensures
            r.dimension == dimension,
            r.faces@.len() == 0,
    {
        Cube { dimension, faces: Vec::new() }
    }

    /// Attaches a face.
    pub fn add_face(&mut self, face: ProofId)
        requires
            old(self).faces@.len() < usize::MAX,
        ensures
            final(self).faces@ == old(self).faces@.push(face),
            final(self).dimension == old(self).dimension,
    {
        self.faces.push(face);
    }

    /// How many faces a cube of this dimension has: one for a point, twice
    /// the dimension otherwise.
    pub fn expected_faces(&self) -> (r: usize)
        requires
            self.dimension <= usize::MAX / 2,
        ensures
            r == if self.dimension == 0 {
                1int
            } else {
                2 * self.dimension
            },
    {
        if self.dimension == 0 {
            1
        } else {
            2 * self.dimension
        }
    }
}

impl Verifiable for Cube {
    /// A cube is valid when it has exactly the expected number of faces.
    fn verify(&self) -> (r: Result<bool, ProveItError>)
        ensures
            r is Ok <==> self.faces@.len() == if self.dimension == 0 {
                1int
            } else {
                2 * self.dimension
            },
    {
        let flen = self.faces.len();
        let expected: usize = if self.dimension == 0 {
            1
        } else if self.dimension <= usize::MAX / 2 {
            2 * self.dimension
        } else {
            proof {
                assert(self.faces@.len() == flen);
                assert(self.faces@.len() < 2 * self.dimension);
            }
            let mut m = String::new();
            m.append("the cube's dimension is out of range");
            return Err(ProveItError::VerificationError(m));
        };
        if self.faces.len() != expected {
            let mut m = String::new();
            m.append("a ");
            m.append(crate::text::usize_to_string(self.dimension).as_str());
            m.append("-dimensional cube should have ");
            m.append(crate::text::usize_to_string(expected).as_str());
            m.append(" faces, found ");
            m.append(crate::text::usize_to_string(self.faces.len()).as_str());
            return Err(ProveItError::VerificationError(m));
        }
        Ok(true)
    }

    fn describe(&self) -> String {
        let mut s = String::new();
        s.append(crate::text::usize_to_string(self.dimension).as_str());
        s.append("-dimensional cube with ");
        s.append(crate::text::usize_to_string(self.faces.len()).as_str());
        s.append(" faces");
        s
    }
}

/// A universe level of the type hierarchy.
#[derive(Debug, Clone, Copy, PartialEq, Eq, PartialOrd, Ord, Hash, Structural)]
pub struct UniverseLevel(pub usize);

impl UniverseLevel {
    /// The bottom universe.
    pub fn zero() -> (r: Self)
        ensures
            r.0 == 0,
    {
        UniverseLevel(0)
    }

    /// The next universe up.
    pub fn succ(&self) -> (r: Self)
        requires
            self.0 < usize::MAX,
        ensures
            r.0 == self.0 + 1,
    {
        UniverseLevel(self.0 + 1)
    }
}

/// Formal types of the foundational layer.
#[derive(Debug)]
pub enum FormalType {
    /// A base type, by name.
    Base(String),
    /// A function type.
    Arrow(Box<FormalType>, Box<FormalType>),
    /// A dependent function type.
    Pi { param: String, domain: Box<FormalType>, codomain: Box<FormalType> },
    /// A dependent sum type.
    Sigma { param: String, domain: Box<FormalType>, codomain: Box<FormalType> },
    /// A path (identity) type between two proof objects.
    PathType { typ: Box<FormalType>, start: ProofId, end: ProofId },
    /// A universe.
    Universe(UniverseLevel),
}

/// The universe level of a formal type, mathematically.
pub open spec fn universe_level_s(t: FormalType) -> nat
    decreases t,
{
    match t {
        FormalType::Base(_) => 0,
        FormalType::Arrow(a, b) => {
            let la = universe_level_s(*a);
            let lb = universe_level_s(*b);
            if la >= lb {
                la
            } else {
                lb
            }
        },
        FormalType::Pi { domain, codomain, .. } => {
            let la = universe_level_s(*domain);
            let lb = universe_level_s(*codomain);
            if la >= lb {
                la
            } else {
                lb
            }
        },
        FormalType::Sigma { domain, codomain, .. } => {
            let la = universe_level_s(*domain);
            let lb = universe_level_s(*codomain);
            if la >= lb {
                la
            } else {
                lb
            }
        },
        FormalType::PathType { typ, .. } => universe_level_s(*typ),
        FormalType::Universe(level) => (level.0 + 1) as nat,
    }
}

impl FormalType {
    /// The universe level of the type: the maximum over its parts, one above
    /// for a universe.
    pub fn universe_level(&self) -> (r: UniverseLevel)
        requires
            universe_level_s(*self) <= usize::MAX as nat,
        ensures
            r.0 == universe_level_s(*self),
        decreases self,
    {
        match self {
            FormalType::Base(_) => UniverseLevel(0),
            FormalType::Arrow(a, b) => {
                let la = a.universe_level();
                let lb = b.universe_level();
                if la.0 >= lb.0 {
                    la
                } else {
                    lb
                }
            },
            FormalType::Pi { domain, codomain, .. } => {
                let la = domain.universe_level();
                let lb = codomain.universe_level();
                if la.0 >= lb.0 {
                    la
                } else {
                    lb
                }
            },
            FormalType::Sigma { domain, codomain, .. } => {
                let la = domain.universe_level();
                let lb = codomain.universe_level();
                if la.0 >= lb.0 {
                    la
                } else {
                    lb
                }
            },
            FormalType::PathType { typ, .. } => typ.universe_level(),
            FormalType::Universe(level) => UniverseLevel(level.0 + 1),
        }
    }
}

impl Verifiable for FormalType {
    /// Every constructible formal type is valid; the scan walks its parts.
    fn verify(&self) -> (r: Result<bool, ProveItError>)
        ensures
            r is Ok,
        decreases self,
    {
        match self {
            FormalType::Base(_) => Ok(true),
            FormalType::Arrow(a, b) => {
                match a.verify() {
                    Ok(_) => {},
                    Err(e) => {
                        return Err(e);
                    },
                };
                b.verify()
            },
            FormalType::Pi { domain, codomain, .. } => {
                match domain.verify() {
                    Ok(_) => {},
                    Err(e) => {
                        return Err(e);
                    },
                };
                codomain.verify()
            },
            FormalType::Sigma { domain, codomain, .. } => {
                match domain.verify() {
                    Ok(_) => {},
                    Err(e) => {
                        return Err(e);
                    },
                };
                codomain.verify()
            },
            FormalType::PathType { typ, .. } => typ.verify(),
            FormalType::Universe(_) => Ok(true),
        }
    }

    fn describe(&self) -> (r: String)
        decreases self,
    {
        let mut s = String::new();
        match self {
            FormalType::Base(name) => {
                s.append(name.as_str());
            },
            FormalType::Arrow(a, b) => {
                s.append(a.describe().as_str());
                s.append(" -> ");
                s.append(b.describe().as_str());
            },
            FormalType::Pi { param, domain, codomain } => {
                s.append("Pi(");
                s.append(param.as_str());
                s.append(":");
                s.append(domain.describe().as_str());
                s.append("). ");
                s.append(codomain.describe().as_str());
            },
            FormalType::Sigma { param, domain, codomain } => {
                s.append("Sigma(");
                s.append(param.as_str());
                s.append(":");
                s.append(domain.describe().as_str());
                s.append("). ");
                s.append(codomain.describe().as_str());
            },
            FormalType::PathType { typ, start, end } => {
                s.append("path in ");
                s.append(typ.describe().as_str());
                s.append(" from object ");
                s.append(crate::text::u64_to_string(start.0).as_str());
                s.append(" to object ");
                s.append(crate::text::u64_to_string(end.0).as_str());
            },
            FormalType::Universe(level) => {
                s.append("universe ");
                s.append(crate::text::usize_to_string(level.0).as_str());
            },
        }
        s
    }
}


impl Clone for FormalType {
    /// Copies the formal type.
    fn clone(&self) -> (res: Self)
        decreases self,
    {
        match self {
            FormalType::Base(name) => FormalType::Base(name.clone()),
            FormalType::Arrow(a, b) => FormalType::Arrow(
                Box::new((**a).clone()),
                Box::new((**b).clone()),
            ),
            FormalType::Pi { param, domain, codomain } => FormalType::Pi {
                param: param.clone(),
                domain: Box::new((**domain).clone()),
                codomain: Box::new((**codomain).clone()),
            },
            FormalType::Sigma { param, domain, codomain } => FormalType::Sigma {
                param: param.clone(),
                domain: Box::new((**domain).clone()),
                codomain: Box::new((**codomain).clone()),
            },
            FormalType::PathType { typ, start, end } => FormalType::PathType {
                typ: Box::new((**typ).clone()),
                start: *start,
                end: *end,
            },
            FormalType::Universe(level) => FormalType::Universe(*level),
        }
    }
}

} // verus!
