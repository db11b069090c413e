//! WebAssembly emission: the function signatures of a module, each added once.
use vstd::prelude::*;
use wasm_encoder::{TypeSection, ValType};

verus! {

#[verifier::external_type_specification]
#[verifier::external_body]
pub struct ExTypeSection(TypeSection);

/// The number types of WebAssembly that signatures are made of.
#[derive(Debug, Clone, Copy, PartialEq, Eq, Structural)]
pub enum ValKind {
    I32,
    I64,
    F32,
    F64,
    V128,
}

/// A function signature: parameter types, result types.
pub type Sig = (Seq<ValKind>, Seq<ValKind>);

/// The function types a type section holds, in the order they were added.
pub uninterp spec fn section_types(t: TypeSection) -> Seq<Sig>;

/// `TypeSection::new`: a section with no types.
#[verifier::external_body]
fn type_section_new() -> (t: TypeSection)
    ensures
        section_types(t) == Seq::<Sig>::empty(),
{
    TypeSection::new()
}

/// `TypeSection::len`: the number of types added so far.
#[verifier::external_body]
fn type_section_len(t: &TypeSection) -> (n: u32)
    ensures
        n == section_types(*t).len(),
{
    t.len()
}

/// `TypeSection::ty().function(params, results)`, each number type passed as its
/// `ValType`: appends one function type. The count of types is a `u32` and each list's
/// length is encoded as one, so all three must fit.
#[verifier::external_body]
fn type_section_add_function(t: &mut TypeSection, params: &Vec<ValKind>, results: &Vec<ValKind>)
    requires
        section_types(*old(t)).len() < u32::MAX,
        params@.len() <= u32::MAX,
        results@.len() <= u32::MAX,
    ensures
        section_types(*final(t)) == section_types(*old(t)).push((params@, results@)),
{
    let val_type = |k: &ValKind| match k {
        ValKind::I32 => ValType::I32,
        ValKind::I64 => ValType::I64,
        ValKind::F32 => ValType::F32,
        ValKind::F64 => ValType::F64,
        ValKind::V128 => ValType::V128,
    };
    let p: Vec<ValType> = params.iter().map(val_type).collect();
    let r: Vec<ValType> = results.iter().map(val_type).collect();
    t.ty().function(p, r);
}

/// The first cached index of `sig`, if any.
pub open spec fn cached(cache: Seq<(Sig, u32)>, sig: Sig) -> Option<u32>
    decreases cache.len(),
{
    if cache.len() == 0 {
        None
    } else {
        match cached(cache.drop_last(), sig) {
            Some(i) => Some(i),
            None => if cache.last().0 == sig { Some(cache.last().1) } else { None },
        }
    }
}

/// The generator's state: the type section and the index each signature got.
pub struct Codegen {
    types: TypeSection,
    func_sig_cache: Vec<(Vec<ValKind>, Vec<ValKind>, u32)>,
}

/// The mathematical form of a generator.
pub struct CodegenState {
    pub types: Seq<Sig>,
    pub cache: Seq<(Sig, u32)>,
}

impl View for Codegen {
    type V = CodegenState;

    closed spec fn view(&self) -> CodegenState {
        CodegenState {
            types: section_types(self.types),
            cache: self.func_sig_cache@.map_values(|e: (Vec<ValKind>, Vec<ValKind>, u32)| ((e.0@, e.1@), e.2)),
        }
    }
}

/// Every cached signature is the type at its index.
pub open spec fn cache_sound(s: CodegenState) -> bool {
    forall|i: int| 0 <= i < s.cache.len() ==> {
        let (sig, idx) = #[trigger] s.cache[i];
        idx < s.types.len() && s.types[idx as int] == sig
    }
}

/// The state after asking for the index of `sig`, and that index.
pub open spec fn sig_index(s: CodegenState, sig: Sig) -> (CodegenState, u32) {
    match cached(s.cache, sig) {
        Some(i) => (s, i),
        None => {
            let idx = s.types.len() as u32;
            (CodegenState { types: s.types.push(sig), cache: s.cache.push((sig, idx)) }, idx)
        },
    }
}

proof fn lemma_cached(cache: Seq<(Sig, u32)>, sig: Sig)
    ensures
        match cached(cache, sig) {
            Some(i) => exists|k: int| 0 <= k < cache.len() && #[trigger] cache[k] == (sig, i),
            None => forall|k: int| 0 <= k < cache.len() ==> (#[trigger] cache[k]).0 != sig,
        },
    decreases cache.len(),
{
    if cache.len() > 0 {
        lemma_cached(cache.drop_last(), sig);
        match cached(cache.drop_last(), sig) {
            Some(i) => {
                let k = choose|k: int| 0 <= k < cache.drop_last().len() && #[trigger] cache.drop_last()[k] == (sig, i);
                assert(cache[k] == (sig, i));
            },
            None => {
                assert forall|k: int| 0 <= k < cache.len() - 1 implies (#[trigger] cache[k]).0 != sig by {
                    assert(cache[k] == cache.drop_last()[k]);
                }
            },
        }
    }
}

impl Codegen {
    /// A generator with no types yet.
    pub fn new() -> (g: Self)
        ensures
            g@.types == Seq::<Sig>::empty(),
            g@.cache == Seq::<(Sig, u32)>::empty(),
            cache_sound(g@),
    {
        let g = Codegen { types: type_section_new(), func_sig_cache: Vec::new() };
        assert(g@.cache =~= Seq::<(Sig, u32)>::empty());
        g
    }

    /// The index of the function type `(params) -> (results)`, adding it to the type
    /// section the first time it is asked for.
    pub fn func_sig_index(&mut self, params: Vec<ValKind>, results: Vec<ValKind>) -> (r: u32)
        requires
            cache_sound(old(self)@),
            cached(old(self)@.cache, (params@, results@)) is None ==> old(self)@.types.len() < u32::MAX,
            params@.len() <= u32::MAX,
            results@.len() <= u32::MAX,
        ensures
            (final(self)@, r) == sig_index(old(self)@, (params@, results@)),
            cache_sound(final(self)@),
    {
        let ghost sig = (params@, results@);
        let ghost cache = self@.cache;
        let mut i: usize = 0;
        while i < self.func_sig_cache.len()
            invariant
                i <= self.func_sig_cache@.len(),
                cache == self@.cache,
                cache_sound(self@),
                sig == (params@, results@),
                cached(cache.take(i as int), sig) is None,
            decreases self.func_sig_cache@.len() - i,
        {
            let e = &self.func_sig_cache[i];
            proof {
                assert(cache[i as int] == ((e.0@, e.1@), e.2));
                assert(cache.take(i + 1).drop_last() =~= cache.take(i as int));
            }
            if vec_eq(&e.0, &params) && vec_eq(&e.1, &results) {
                let idx = e.2;
                proof {
                    assert(cache.take(i + 1).last() == cache[i as int]);
                    assert(cached(cache.take(i + 1), sig) == Some(idx));
                    lemma_cached_extends(cache, sig, i + 1);
                }
                return idx;
            }
            i = i + 1;
        }
        proof { assert(cache.take(cache.len() as int) =~= cache); }
        let idx = type_section_len(&self.types);
        type_section_add_function(&mut self.types, &params, &results);
        let ghost before = self.func_sig_cache@;
        self.func_sig_cache.push((params, results, idx));
        proof {
            assert(self@.cache =~= cache.push((sig, idx)));
            let s = self@;
            assert forall|k: int| 0 <= k < s.cache.len() implies {
                let (sg, ix) = #[trigger] s.cache[k];
                ix < s.types.len() && s.types[ix as int] == sg
            } by {
                if k < cache.len() {
                    assert(s.cache[k] == cache[k]);
                }
            }
        }
        idx
    }
}

/// Once a prefix of the cache holds the signature, the whole cache gives the same index.
proof fn lemma_cached_extends(cache: Seq<(Sig, u32)>, sig: Sig, n: int)
    requires
        0 <= n <= cache.len(),
        cached(cache.take(n), sig) is Some,
    ensures
        cached(cache, sig) == cached(cache.take(n), sig),
    decreases cache.len() - n,
{
    if n < cache.len() {
        assert(cache.take(n + 1).drop_last() =~= cache.take(n));
        lemma_cached_extends(cache, sig, n + 1);
    } else {
        assert(cache.take(n) =~= cache);
    }
}

/// Whether two lists of number types are equal.
fn vec_eq(a: &Vec<ValKind>, b: &Vec<ValKind>) -> (r: bool)
    ensures
        r == (a@ == b@),
{
    if a.len() != b.len() {
        return false;
    }
    let mut i: usize = 0;
    while i < a.len()
        invariant
            i <= a@.len() == b@.len(),
            forall|j: int| 0 <= j < i ==> a@[j] == b@[j],
        decreases a@.len() - i,
    {
        if a[i] != b[i] {
            return false;
        }
        i = i + 1;
    }
    assert(a@ =~= b@);
    true
}

/// Asking twice for one signature gives one index, and the second request adds nothing.
pub proof fn law_sig_index_idempotent(s: CodegenState, sig: Sig)
    ensures
        sig_index(sig_index(s, sig).0, sig) == sig_index(s, sig),
{
    let (s1, i) = sig_index(s, sig);
    if cached(s.cache, sig) is None {
        assert(s1.cache.drop_last() =~= s.cache);
    }
}

/// The index given for a signature is where the section holds that signature; a new
/// signature is added once, at the end.
pub proof fn law_sig_index_finds_sig(s: CodegenState, sig: Sig)
    requires
        cache_sound(s),
        cached(s.cache, sig) is None ==> s.types.len() < u32::MAX,
    ensures
        sig_index(s, sig).1 < sig_index(s, sig).0.types.len(),
        sig_index(s, sig).0.types[sig_index(s, sig).1 as int] == sig,
        cache_sound(sig_index(s, sig).0),
        sig_index(s, sig).0.types.len() == s.types.len() + (if cached(s.cache, sig) is None { 1int } else { 0int }),
{
    lemma_cached(s.cache, sig);
    let (s1, i) = sig_index(s, sig);
    match cached(s.cache, sig) {
        Some(i) => {
            let k = choose|k: int| 0 <= k < s.cache.len() && #[trigger] s.cache[k] == (sig, i);
            assert(s.cache[k] == (sig, i));
        },
        None => {
            assert forall|k: int| 0 <= k < s1.cache.len() implies {
                let (sg, ix) = #[trigger] s1.cache[k];
                ix < s1.types.len() && s1.types[ix as int] == sg
            } by {
                if k < s.cache.len() {
                    assert(s1.cache[k] == s.cache[k]);
                }
            }
        },
    }
}

} // verus!
