use vstd::prelude::*;
use indexmap::IndexMap;
use crate::parser::text;
use super::ty::{Ty, SemTy, sem_tys, ty_text};
use super::tast::{FuncId, StructId, VarId};

verus! {

// ---- the ordered map of struct fields ----

#[verifier::external_type_specification]
#[verifier::external_body]
#[verifier::reject_recursive_types(K)]
#[verifier::reject_recursive_types(V)]
#[verifier::reject_recursive_types(S)]
pub struct ExIndexMap<K, V, S>(IndexMap<K, V, S>);

/// The entries of a field map, in insertion order: name and type.
pub uninterp spec fn field_entries(m: IndexMap<String, Ty>) -> Seq<(Seq<char>, SemTy)>;

/// The index of the entry named `k`, if any.
pub open spec fn entry_index(es: Seq<(Seq<char>, SemTy)>, k: Seq<char>) -> Option<int>
    decreases es.len(),
{
    if es.len() == 0 {
        None
    } else if es.last().0 == k {
        Some(es.len() - 1)
    } else {
        entry_index(es.drop_last(), k)
    }
}

/// `IndexMap::new`: an empty map.
#[verifier::external_body]
fn field_map_new() -> (m: IndexMap<String, Ty>)
    ensures
        field_entries(m) == Seq::<(Seq<char>, SemTy)>::empty(),
{
    IndexMap::new()
}

/// `IndexMap::contains_key`: whether an entry has the key.
#[verifier::external_body]
fn field_map_contains(m: &IndexMap<String, Ty>, k: &String) -> (r: bool)
    ensures
        r == entry_index(field_entries(*m), k@) is Some,
{
    m.contains_key(k)
}

/// `IndexMap::insert`: a new key is inserted last; an existing key keeps its place and
/// its value is replaced, the old value being returned.
#[verifier::external_body]
fn field_map_insert(m: &mut IndexMap<String, Ty>, k: String, v: Ty) -> (r: Option<Ty>)
    ensures
        match entry_index(field_entries(*old(m)), k@) {
            Some(i) => field_entries(*final(m)) == field_entries(*old(m)).update(i, (k@, v@))
                && r is Some && r->Some_0@ == field_entries(*old(m))[i].1,
            None => field_entries(*final(m)) == field_entries(*old(m)).push((k@, v@)) && r is None,
        },
{
    m.insert(k, v)
}

// ---- naming conventions ----

pub open spec fn is_lower(c: char) -> bool {
    0x61 <= (c as u32) <= 0x7A
}

pub open spec fn is_upper(c: char) -> bool {
    0x41 <= (c as u32) <= 0x5A
}

pub open spec fn is_ascii_digit(c: char) -> bool {
    0x30 <= (c as u32) <= 0x39
}

/// Starts with a lowercase ASCII letter or `_`; only lowercase letters, digits and `_`.
pub open spec fn snake_case(name: Seq<char>) -> bool {
    &&& name.len() > 0
    &&& (is_lower(name[0]) || name[0] == '_')
    &&& forall|i: int| 0 <= i < name.len() ==> is_lower(#[trigger] name[i]) || is_ascii_digit(name[i]) || name[i] == '_'
}

/// Starts with an uppercase ASCII letter; only ASCII letters and digits.
pub open spec fn pascal_case(name: Seq<char>) -> bool {
    &&& name.len() > 0
    &&& is_upper(name[0])
    &&& forall|i: int| 0 <= i < name.len() ==> is_lower(#[trigger] name[i]) || is_upper(name[i]) || is_ascii_digit(name[i])
}

/// A one-character name is snake_case exactly when the character is a lowercase ASCII
/// letter or `_`; a longer name is snake_case exactly when the name without its last
/// character is, and that last character is a lowercase ASCII letter, an ASCII digit or
/// `_`. So `x1`, `_` and `a_b2` are snake_case, and `1x`, `X` and `a-b` are not.
pub proof fn law_snake_case(name: Seq<char>, c: char)
    ensures
        snake_case(seq![c]) == (('a' <= c && c <= 'z') || c == '_'),
        name.len() > 0 ==> snake_case(name.push(c))
            == (snake_case(name) && (('a' <= c && c <= 'z') || ('0' <= c && c <= '9') || c == '_')),
        !snake_case(Seq::<char>::empty()),
{
    assert(seq![c][0] == c);
    if name.len() > 0 {
        let n = name.push(c);
        assert(n[0] == name[0]);
        assert(n[name.len() as int] == c);
        if snake_case(n) {
            assert forall|i: int| 0 <= i < name.len() implies is_lower(#[trigger] name[i]) || is_ascii_digit(name[i]) || name[i] == '_' by {
                assert(n[i] == name[i]);
            }
        }
        if snake_case(name) && (('a' <= c && c <= 'z') || ('0' <= c && c <= '9') || c == '_') {
            assert forall|i: int| 0 <= i < n.len() implies is_lower(#[trigger] n[i]) || is_ascii_digit(n[i]) || n[i] == '_' by {
                if i < name.len() {
                    assert(n[i] == name[i]);
                }
            }
        }
    }
}

/// A one-character name is PascalCase exactly when the character is an uppercase ASCII
/// letter; a longer name is PascalCase exactly when the name without its last character
/// is, and that last character is an ASCII letter or digit. So `Point3` and `P` are
/// PascalCase, and `point`, `_P` and `P_Q` are not.
pub proof fn law_pascal_case(name: Seq<char>, c: char)
    ensures
        pascal_case(seq![c]) == ('A' <= c && c <= 'Z'),
        name.len() > 0 ==> pascal_case(name.push(c))
            == (pascal_case(name) && (('a' <= c && c <= 'z') || ('A' <= c && c <= 'Z') || ('0' <= c && c <= '9'))),
        !pascal_case(Seq::<char>::empty()),
{
    assert(seq![c][0] == c);
    if name.len() > 0 {
        let n = name.push(c);
        assert(n[0] == name[0]);
        assert(n[name.len() as int] == c);
        if pascal_case(n) {
            assert forall|i: int| 0 <= i < name.len() implies is_lower(#[trigger] name[i]) || is_upper(name[i]) || is_ascii_digit(name[i]) by {
                assert(n[i] == name[i]);
            }
        }
        if pascal_case(name) && (('a' <= c && c <= 'z') || ('A' <= c && c <= 'Z') || ('0' <= c && c <= '9')) {
            assert forall|i: int| 0 <= i < n.len() implies is_lower(#[trigger] n[i]) || is_upper(n[i]) || is_ascii_digit(n[i]) by {
                if i < name.len() {
                    assert(n[i] == name[i]);
                }
            }
        }
    }
}

fn is_snake_case(name: &str) -> (r: bool)
    ensures
        r == snake_case(name@),
{
    let n = name.unicode_len();
    if n == 0 {
        return false;
    }
    let c0 = name.get_char(0);
    if !((0x61 <= (c0 as u32) && (c0 as u32) <= 0x7A) || c0 == '_') {
        return false;
    }
    let mut i: usize = 0;
    while i < n
        invariant
            n == name@.len(),
            i <= n,
            forall|j: int| 0 <= j < i ==> is_lower(#[trigger] name@[j]) || is_ascii_digit(name@[j]) || name@[j] == '_',
        decreases n - i,
    {
        let c = name.get_char(i);
        if !((0x61 <= (c as u32) && (c as u32) <= 0x7A) || (0x30 <= (c as u32) && (c as u32) <= 0x39) || c == '_') {
            return false;
        }
        i = i + 1;
    }
    true
}

fn is_pascal_case(name: &str) -> (r: bool)
    ensures
        r == pascal_case(name@),
{
    let n = name.unicode_len();
    if n == 0 {
        return false;
    }
    let c0 = name.get_char(0);
    if !(0x41 <= (c0 as u32) && (c0 as u32) <= 0x5A) {
        return false;
    }
    let mut i: usize = 0;
    while i < n
        invariant
            n == name@.len(),
            i <= n,
            forall|j: int| 0 <= j < i ==> is_lower(#[trigger] name@[j]) || is_upper(name@[j]) || is_ascii_digit(name@[j]),
        decreases n - i,
    {
        let c = name.get_char(i);
        if !((0x61 <= (c as u32) && (c as u32) <= 0x7A) || (0x41 <= (c as u32) && (c as u32) <= 0x5A) || (0x30 <= (c as u32) && (c as u32) <= 0x39)) {
            return false;
        }
        i = i + 1;
    }
    true
}

// ---- symbols ----

struct FuncKey {
    name: String,
    first_param_ty: Option<Ty>,
}

/// A declared function: its number and signature.
pub struct FuncSymbol {
    pub id: FuncId,
    pub params_ty: Vec<Ty>,
    pub ret_ty: Ty,
}

/// A struct with its fields, in declaration order.
pub struct StructSymbol {
    pub id: StructId,
    pub fields: IndexMap<String, Ty>,
}

/// A variable: its number within its function and its type.
pub struct VarSymbol {
    pub id: VarId,
    pub ty: Ty,
}

/// The mathematical form of a function symbol.
pub struct FuncSym {
    pub id: u64,
    pub params: Seq<SemTy>,
    pub ret: SemTy,
}

pub struct VarSym {
    pub id: u64,
    pub ty: SemTy,
}

pub type FuncKeyV = (Seq<char>, Option<SemTy>);

/// The mathematical form of a symbol table.
pub struct SymState {
    /// Functions by name and first parameter type, in declaration order.
    pub funcs: Seq<(FuncKeyV, FuncSym)>,
    /// Struct numbers by name, in declaration order.
    pub struct_ids: Seq<(Seq<char>, u64)>,
    /// Struct fields by struct number.
    pub structs: Seq<(u64, Seq<(Seq<char>, SemTy)>)>,
    /// Variables of each open scope, innermost last.
    pub scopes: Seq<Seq<(Seq<char>, VarSym)>>,
    /// The number the next variable gets.
    pub local_id: u64,
}

pub open spec fn func_sym(f: FuncSymbol) -> FuncSym {
    FuncSym { id: f.id.0, params: sem_tys(f.params_ty@), ret: f.ret_ty@ }
}

pub open spec fn var_sym(v: VarSymbol) -> VarSym {
    VarSym { id: v.id.0, ty: v.ty@ }
}

pub open spec fn opt_sem(t: Option<Ty>) -> Option<SemTy> {
    match t {
        Some(t) => Some(t@),
        None => None,
    }
}

/// Position of the first entry with key `k` in an association list.
pub open spec fn find<K, V>(s: Seq<(K, V)>, k: K) -> Option<int>
    decreases s.len(),
{
    if s.len() == 0 {
        None
    } else if s[0].0 == k {
        Some(0)
    } else {
        match find(s.drop_first(), k) {
            Some(i) => Some(i + 1),
            None => None,
        }
    }
}

/// The value stored under `k`, if any.
pub open spec fn get<K, V>(s: Seq<(K, V)>, k: K) -> Option<V> {
    match find(s, k) {
        Some(i) => Some(s[i].1),
        None => None,
    }
}

/// `s` with `k` mapped to `v`: in place when present, appended otherwise.
pub open spec fn put<K, V>(s: Seq<(K, V)>, k: K, v: V) -> Seq<(K, V)> {
    match find(s, k) {
        Some(i) => s.update(i, (k, v)),
        None => s.push((k, v)),
    }
}

/// The variable named `name` in the innermost scope that has one.
pub open spec fn lookup_in(scopes: Seq<Seq<(Seq<char>, VarSym)>>, name: Seq<char>) -> Option<VarSym>
    decreases scopes.len(),
{
    if scopes.len() == 0 {
        None
    } else {
        match get(scopes.last(), name) {
            Some(v) => Some(v),
            None => lookup_in(scopes.drop_last(), name),
        }
    }
}

pub open spec fn empty_state() -> SymState {
    SymState { funcs: seq![], struct_ids: seq![], structs: seq![], scopes: seq![], local_id: 0 }
}

pub open spec fn enter_scope(s: SymState) -> SymState {
    SymState { scopes: s.scopes.push(seq![]), ..s }
}

pub open spec fn exit_scope(s: SymState) -> SymState {
    if s.scopes.len() > 0 { SymState { scopes: s.scopes.drop_last(), ..s } } else { s }
}

pub open spec fn enter_func(s: SymState) -> SymState {
    SymState { local_id: 0, ..enter_scope(s) }
}

pub open spec fn func_signature(name: Seq<char>, first: Option<SemTy>) -> Seq<char> {
    match first {
        Some(t) => "`"@ + name + "("@ + ty_text(t) + "...)`"@,
        None => "`"@ + name + "`"@,
    }
}

/// Declares a function; its number is the count of functions before it.
/// The type of the first parameter, if there is one.
pub open spec fn first_ty(params: Seq<SemTy>) -> Option<SemTy> {
    if params.len() > 0 { Some(params[0]) } else { None }
}

pub open spec fn define_func(s: SymState, name: Seq<char>, params: Seq<SemTy>, ret: SemTy) -> (SymState, Result<(), Seq<char>>) {
    let first = first_ty(params);
    if !snake_case(name) {
        (s, Err("function `"@ + name + "` must be snake_case"@))
    } else if find(s.funcs, (name, first)) is Some {
        (s, Err("function "@ + func_signature(name, first) + " is already defined"@))
    } else {
        (SymState { funcs: s.funcs.push(((name, first), FuncSym { id: s.funcs.len() as u64, params, ret })), ..s }, Ok(()))
    }
}

pub open spec fn lookup_func(s: SymState, name: Seq<char>, first: Option<SemTy>) -> Option<FuncSym> {
    get(s.funcs, (name, first))
}

/// Declares a struct; its number is the count of structs before it.
pub open spec fn define_struct(s: SymState, name: Seq<char>) -> (SymState, Result<u64, Seq<char>>) {
    if !pascal_case(name) {
        (s, Err("struct `"@ + name + "` must be PascalCase"@))
    } else if find(s.struct_ids, name) is Some {
        (s, Err("struct "@ + name + " is already defined"@))
    } else {
        let id = s.struct_ids.len() as u64;
        (SymState { struct_ids: s.struct_ids.push((name, id)), ..s }, Ok(id))
    }
}

/// The fields as an ordered map, or the first name given twice.
pub open spec fn field_list(fields: Seq<(Seq<char>, SemTy)>) -> Result<Seq<(Seq<char>, SemTy)>, Seq<char>>
    decreases fields.len(),
{
    if fields.len() == 0 {
        Ok(seq![])
    } else {
        match field_list(fields.drop_last()) {
            Err(m) => Err(m),
            Ok(es) => if entry_index(es, fields.last().0) is Some {
                Err("field `"@ + fields.last().0 + "` is already defined"@)
            } else {
                Ok(es.push(fields.last()))
            },
        }
    }
}

/// Records the fields of the declared struct `name`.
pub open spec fn define_struct_fields(s: SymState, name: Seq<char>, fields: Seq<(Seq<char>, SemTy)>) -> (SymState, Result<u64, Seq<char>>) {
    let id = get(s.struct_ids, name)->Some_0;
    match field_list(fields) {
        Err(m) => (s, Err(m)),
        Ok(es) => (SymState { structs: put(s.structs, id, es), ..s }, Ok(id)),
    }
}

/// The number and fields of struct `name`, if declared and given fields.
pub open spec fn lookup_struct(s: SymState, name: Seq<char>) -> Option<(u64, Seq<(Seq<char>, SemTy)>)> {
    match get(s.struct_ids, name) {
        Some(id) => match get(s.structs, id) {
            Some(es) => Some((id, es)),
            None => None,
        },
        None => None,
    }
}

/// Declares a variable in the innermost scope. The variable's number is taken before
/// the check for a duplicate name.
pub open spec fn define_var(s: SymState, name: Seq<char>, ty: SemTy) -> (SymState, Result<u64, Seq<char>>) {
    if !snake_case(name) {
        (s, Err("variable `"@ + name + "` must be snake_case"@))
    } else {
        let id = s.local_id;
        let s1 = SymState { local_id: (s.local_id + 1) as u64, ..s };
        let scope = s.scopes.last();
        if find(scope, name) is Some {
            (s1, Err("variable `"@ + name + "` is already defined"@))
        } else {
            (SymState { scopes: s.scopes.update(s.scopes.len() - 1, scope.push((name, VarSym { id, ty }))), ..s1 }, Ok(id))
        }
    }
}

pub open spec fn lookup_var(s: SymState, name: Seq<char>) -> Option<VarSym> {
    lookup_in(s.scopes, name)
}

/// Keys of an association list occur once each.
pub open spec fn keys_unique<K, V>(s: Seq<(K, V)>) -> bool {
    forall|i: int, j: int| 0 <= i < j < s.len() ==> s[i].0 != s[j].0
}

/// What `find` means: the first position whose key is `k`.
pub proof fn lemma_find<K, V>(s: Seq<(K, V)>, k: K)
    ensures
        match find(s, k) {
            Some(i) => 0 <= i < s.len() && s[i].0 == k && forall|j: int| 0 <= j < i ==> s[j].0 != k,
            None => forall|j: int| 0 <= j < s.len() ==> s[j].0 != k,
        },
    decreases s.len(),
{
    if s.len() > 0 {
        lemma_find(s.drop_first(), k);
        assert forall|j: int| 1 <= j < s.len() implies s[j].0 == s.drop_first()[j - 1].0 by {}
    }
}

/// `find` of a key that does not occur is `None`; of one that first occurs at `i`, `Some(i)`.
pub proof fn lemma_find_at<K, V>(s: Seq<(K, V)>, k: K, i: int)
    requires
        0 <= i <= s.len(),
        forall|j: int| 0 <= j < i ==> s[j].0 != k,
        i < s.len() ==> s[i].0 == k,
    ensures
        find(s, k) == (if i < s.len() { Some(i) } else { None::<int> }),
{
    lemma_find(s, k);
    match find(s, k) {
        Some(f) => {
            if f < i {
                assert(s[f].0 != k);
            }
        },
        None => {
            if i < s.len() {
                assert(s[i].0 != k);
            }
        },
    }
}

/// The table of functions, structs and variables in scope.
pub struct SymbolTable {
    funcs: Vec<(FuncKey, FuncSymbol)>,
    struct_ids: Vec<(String, StructId)>,
    structs: Vec<StructSymbol>,
    scopes: Vec<Vec<(String, VarSymbol)>>,
    local_id: u64,
}

spec fn fk_view(k: FuncKey) -> FuncKeyV {
    (k.name@, opt_sem(k.first_param_ty))
}

spec fn scope_view(sc: Vec<(String, VarSymbol)>) -> Seq<(Seq<char>, VarSym)> {
    sc@.map_values(|e: (String, VarSymbol)| (e.0@, var_sym(e.1)))
}

impl View for SymbolTable {
    type V = SymState;

    closed spec fn view(&self) -> SymState {
        SymState {
            funcs: self.funcs@.map_values(|e: (FuncKey, FuncSymbol)| (fk_view(e.0), func_sym(e.1))),
            struct_ids: self.struct_ids@.map_values(|e: (String, StructId)| (e.0@, e.1.0)),
            structs: self.structs@.map_values(|e: StructSymbol| (e.id.0, field_entries(e.fields))),
            scopes: self.scopes@.map_values(|sc: Vec<(String, VarSymbol)>| scope_view(sc)),
            local_id: self.local_id,
        }
    }
}

fn same_opt_ty(a: &Option<Ty>, b: &Option<Ty>) -> (r: bool)
    ensures
        r == (opt_sem(*a) == opt_sem(*b)),
{
    match (a, b) {
        (Some(x), Some(y)) => x.same(y),
        (None, None) => true,
        _ => false,
    }
}

fn find_var(sc: &Vec<(String, VarSymbol)>, name: &String) -> (r: Option<usize>)
    ensures
        match r {
            Some(i) => i < sc@.len() && find(scope_view(*sc), name@) == Some(i as int),
            None => find(scope_view(*sc), name@) is None,
        },
{
    let ghost v = scope_view(*sc);
    let mut i: usize = 0;
    while i < sc.len()
        invariant
            i <= sc@.len(),
            v == scope_view(*sc),
            forall|j: int| 0 <= j < i ==> v[j].0 != name@,
        decreases sc@.len() - i,
    {
        if sc[i].0 == *name {
            proof { lemma_find_at(v, name@, i as int); }
            return Some(i);
        }
        i = i + 1;
    }
    proof { lemma_find_at(v, name@, i as int); }
    None
}

impl SymbolTable {
    spec fn funcs_view(&self) -> Seq<(FuncKeyV, FuncSym)> {
        self@.funcs
    }

    /// An empty table: no functions, structs or scopes.
    pub fn new() -> (t: Self)
        ensures
            t@ == empty_state(),
    {
        let t = SymbolTable { funcs: Vec::new(), struct_ids: Vec::new(), structs: Vec::new(), scopes: Vec::new(), local_id: 0 };
        assert(t@.funcs =~= seq![]);
        assert(t@.struct_ids =~= seq![]);
        assert(t@.structs =~= seq![]);
        assert(t@.scopes =~= seq![]);
        t
    }

    /// Opens an empty innermost scope.
    pub fn enter_scope(&mut self)
        ensures
            final(self)@ == enter_scope(old(self)@),
    {
        self.scopes.push(Vec::new());
        proof {
            let sc: Vec<(String, VarSymbol)> = self.scopes@.last();
            assert(scope_view(sc) =~= seq![]);
            assert(self@.scopes =~= old(self)@.scopes.push(seq![]));
        }
    }

    /// Closes the innermost scope, if there is one.
    pub fn exit_scope(&mut self)
        ensures
            final(self)@ == exit_scope(old(self)@),
    {
        let _ = self.scopes.pop();
        proof {
            if old(self).scopes@.len() > 0 {
                assert(self@.scopes =~= old(self)@.scopes.drop_last());
            } else {
                assert(self@.scopes =~= old(self)@.scopes);
            }
        }
    }

    fn find_func(&self, name: &String, first: &Option<Ty>) -> (r: Option<usize>)
        ensures
            match r {
                Some(i) => i < self.funcs@.len() && find(self@.funcs, (name@, opt_sem(*first))) == Some(i as int),
                None => find(self@.funcs, (name@, opt_sem(*first))) is None,
            },
    {
        let ghost v = self@.funcs;
        let ghost k = (name@, opt_sem(*first));
        let mut i: usize = 0;
        while i < self.funcs.len()
            invariant
                i <= self.funcs@.len(),
                v == self@.funcs,
                k == (name@, opt_sem(*first)),
                forall|j: int| 0 <= j < i ==> v[j].0 != k,
            decreases self.funcs@.len() - i,
        {
            let e = &self.funcs[i];
            proof { assert(v[i as int] == (fk_view(self.funcs@[i as int].0), func_sym(self.funcs@[i as int].1))); }
            let same_name = e.0.name == *name;
            let same_first = same_opt_ty(&e.0.first_param_ty, first);
            proof {
                assert(same_name == (e.0.name@ == name@));
                assert(v[i as int].0 == (e.0.name@, opt_sem(e.0.first_param_ty)));
            }
            if same_name && same_first {
                proof { lemma_find_at(v, k, i as int); }
                return Some(i);
            }
            i = i + 1;
        }
        proof { lemma_find_at(v, k, i as int); }
        None
    }

    /// Declares a function under its name and the type of its first parameter.
    pub fn define_func(&mut self, name: &str, params_ty: Vec<Ty>, ret_ty: Ty) -> (r: Result<(), String>)
        ensures
            final(self)@ == define_func(old(self)@, name@, sem_tys(params_ty@), ret_ty@).0,
            same_result(r, define_func(old(self)@, name@, sem_tys(params_ty@), ret_ty@).1, |u: ()| u),
    {
        if !is_snake_case(name) {
            let mut m = text("function `");
            m.append(name);
            m.append("` must be snake_case");
            return Err(m);
        }
        let first: Option<Ty> = if params_ty.len() > 0 { Some(params_ty[0].duplicate()) } else { None };
        proof {
            if params_ty@.len() > 0 {
                assert(sem_tys(params_ty@)[0] == params_ty@[0]@);
            }
        }
        let key_name = text(name);
        if self.find_func(&key_name, &first).is_some() {
            let mut m = text("function ");
            match &first {
                Some(t) => {
                    m.append("`");
                    m.append(name);
                    m.append("(");
                    m.append(t.debug_text().as_str());
                    m.append("...)`");
                },
                None => {
                    m.append("`");
                    m.append(name);
                    m.append("`");
                },
            }
            m.append(" is already defined");
            proof {
                let sig = func_signature(name@, opt_sem(first));
                assert(m@ =~= "function "@ + sig + " is already defined"@);
            }
            return Err(m);
        }
        let id = FuncId(self.funcs.len() as u64);
        let ghost before = self@;
        self.funcs.push((FuncKey { name: key_name, first_param_ty: first }, FuncSymbol { id, params_ty, ret_ty }));
        proof {
            assert(self@.funcs =~= before.funcs.push(((name@, opt_sem(first)), FuncSym { id: before.funcs.len() as u64, params: sem_tys(params_ty@), ret: ret_ty@ })));
        }
        Ok(())
    }

    /// The function declared under `name` and `first_param_ty`, if any.
    pub fn lookup_func(&self, name: &str, first_param_ty: Option<Ty>) -> (r: Option<&FuncSymbol>)
        ensures
            match lookup_func(self@, name@, opt_sem(first_param_ty)) {
                Some(f) => r is Some && func_sym(*r->Some_0) == f,
                None => r is None,
            },
    {
        let key_name = text(name);
        match self.find_func(&key_name, &first_param_ty) {
            Some(i) => {
                proof { assert(self@.funcs[i as int] == (fk_view(self.funcs@[i as int].0), func_sym(self.funcs@[i as int].1))); }
                Some(&self.funcs[i].1)
            },
            None => None,
        }
    }

    /// Opens the scope of a function body; variable numbers start again at zero.
    pub fn enter_func(&mut self)
        ensures
            final(self)@ == enter_func(old(self)@),
    {
        self.enter_scope();
        self.local_id = 0;
    }

    /// Closes the scope of a function body.
    pub fn exit_func(&mut self)
        ensures
            final(self)@ == exit_scope(old(self)@),
    {
        self.exit_scope();
    }

    fn alloc_local_id(&mut self) -> (id: VarId)
        requires
            old(self)@.local_id < u64::MAX,
        ensures
            id.0 == old(self)@.local_id,
            final(self)@ == (SymState { local_id: (old(self)@.local_id + 1) as u64, ..old(self)@ }),
    {
        let id = VarId(self.local_id);
        self.local_id = self.local_id + 1;
        id
    }

    fn find_struct_id(&self, name: &String) -> (r: Option<usize>)
        ensures
            match r {
                Some(i) => i < self.struct_ids@.len() && find(self@.struct_ids, name@) == Some(i as int),
                None => find(self@.struct_ids, name@) is None,
            },
    {
        let ghost v = self@.struct_ids;
        let mut i: usize = 0;
        while i < self.struct_ids.len()
            invariant
                i <= self.struct_ids@.len(),
                v == self@.struct_ids,
                forall|j: int| 0 <= j < i ==> v[j].0 != name@,
            decreases self.struct_ids@.len() - i,
        {
            proof { assert(v[i as int] == (self.struct_ids@[i as int].0@, self.struct_ids@[i as int].1.0)); }
            if self.struct_ids[i].0 == *name {
                proof { lemma_find_at(v, name@, i as int); }
                return Some(i);
            }
            i = i + 1;
        }
        proof { lemma_find_at(v, name@, i as int); }
        None
    }

    fn find_struct(&self, id: StructId) -> (r: Option<usize>)
        ensures
            match r {
                Some(i) => i < self.structs@.len() && find(self@.structs, id.0) == Some(i as int),
                None => find(self@.structs, id.0) is None,
            },
    {
        let ghost v = self@.structs;
        let mut i: usize = 0;
        while i < self.structs.len()
            invariant
                i <= self.structs@.len(),
                v == self@.structs,
                forall|j: int| 0 <= j < i ==> v[j].0 != id.0,
            decreases self.structs@.len() - i,
        {
            proof { assert(v[i as int] == (self.structs@[i as int].id.0, field_entries(self.structs@[i as int].fields))); }
            if self.structs[i].id.0 == id.0 {
                proof { lemma_find_at(v, id.0, i as int); }
                return Some(i);
            }
            i = i + 1;
        }
        proof { lemma_find_at(v, id.0, i as int); }
        None
    }

    /// Declares a struct name; its fields come later.
    pub fn define_struct(&mut self, name: &str) -> (r: Result<StructId, String>)
        ensures
            final(self)@ == define_struct(old(self)@, name@).0,
            same_result(r, define_struct(old(self)@, name@).1, |id: StructId| id.0),
    {
        if !is_pascal_case(name) {
            let mut m = text("struct `");
            m.append(name);
            m.append("` must be PascalCase");
            return Err(m);
        }
        let key = text(name);
        if self.find_struct_id(&key).is_some() {
            let mut m = text("struct ");
            m.append(name);
            m.append(" is already defined");
            return Err(m);
        }
        let id = StructId(self.struct_ids.len() as u64);
        let ghost before = self@;
        self.struct_ids.push((key, id));
        proof {
            assert(self@.struct_ids =~= before.struct_ids.push((name@, id.0)));
        }
        Ok(id)
    }

    /// Records the fields of the declared struct `name`; a field name given twice is an error.
    pub fn define_struct_fields(&mut self, name: &str, fields: &[(String, Ty)]) -> (r: Result<StructId, String>)
        requires
            get(old(self)@.struct_ids, name@) is Some,
        ensures
            final(self)@ == define_struct_fields(old(self)@, name@, fields@.map_values(|f: (String, Ty)| (f.0@, f.1@))).0,
            same_result(r, define_struct_fields(old(self)@, name@, fields@.map_values(|f: (String, Ty)| (f.0@, f.1@))).1, |id: StructId| id.0),
    {
        let ghost fs = fields@.map_values(|f: (String, Ty)| (f.0@, f.1@));
        let key = text(name);
        let k = self.find_struct_id(&key);
        let id = match k {
            Some(i) => self.struct_ids[i].1,
            None => { return Err(key); },
        };
        let mut map = field_map_new();
        let mut i: usize = 0;
        while i < fields.len()
            invariant
                i <= fields@.len(),
                fs == fields@.map_values(|f: (String, Ty)| (f.0@, f.1@)),
                field_list(fs.take(i as int)) == Ok::<Seq<(Seq<char>, SemTy)>, Seq<char>>(field_entries(map)),
            decreases fields@.len() - i,
        {
            let ghost prefix = fs.take(i as int);
            assert(fs.take(i + 1).drop_last() =~= prefix);
            assert(fs.take(i + 1).last() == fs[i as int]);
            if field_map_contains(&map, &fields[i].0) {
                let mut m = text("field `");
                m.append(fields[i].0.as_str());
                m.append("` is already defined");
                proof {
                    assert(field_list(fs.take(i + 1)) is Err);
                    lemma_field_list_err_extends(fs, i + 1);
                    assert(fs.take(fs.len() as int) =~= fs);
                }
                return Err(m);
            }
            let _ = field_map_insert(&mut map, fields[i].0.clone(), fields[i].1.duplicate());
            i = i + 1;
        }
        assert(fs.take(fs.len() as int) =~= fs);
        let ghost before = self@;
        let found = self.find_struct(id);
        let sym = StructSymbol { id, fields: map };
        match found {
            Some(j) => {
                self.structs.set(j, sym);
                proof {
                    assert(self@.structs =~= before.structs.update(j as int, (id.0, field_entries(map))));
                }
            },
            None => {
                self.structs.push(sym);
                proof {
                    assert(self@.structs =~= before.structs.push((id.0, field_entries(map))));
                }
            },
        }
        Ok(id)
    }

    fn lookup_struct_id(&self, name: &str) -> (r: Option<StructId>)
        ensures
            match get(self@.struct_ids, name@) {
                Some(id) => r == Some(StructId(id)),
                None => r is None,
            },
    {
        let key = text(name);
        match self.find_struct_id(&key) {
            Some(i) => {
                proof { assert(self@.struct_ids[i as int] == (self.struct_ids@[i as int].0@, self.struct_ids@[i as int].1.0)); }
                Some(self.struct_ids[i].1)
            },
            None => None,
        }
    }

    /// The struct named `name`, once its fields are recorded.
    pub fn lookup_struct(&self, name: &str) -> (r: Option<&StructSymbol>)
        ensures
            match lookup_struct(self@, name@) {
                Some((id, es)) => r is Some && r->Some_0.id.0 == id && field_entries(r->Some_0.fields) == es,
                None => r is None,
            },
    {
        match self.lookup_struct_id(name) {
            Some(id) => match self.find_struct(id) {
                Some(j) => {
                    proof {
                        lemma_find(self@.structs, id.0);
                        assert(self@.structs[j as int] == (self.structs@[j as int].id.0, field_entries(self.structs@[j as int].fields)));
                    }
                    Some(&self.structs[j])
                },
                None => None,
            },
            None => None,
        }
    }

    /// Declares a variable in the innermost scope.
    pub fn define_var(&mut self, name: &str, ty: Ty) -> (r: Result<VarId, String>)
        requires
            snake_case(name@) ==> old(self)@.local_id < u64::MAX && old(self)@.scopes.len() > 0,
        ensures
            final(self)@ == define_var(old(self)@, name@, ty@).0,
            same_result(r, define_var(old(self)@, name@, ty@).1, |id: VarId| id.0),
    {
        if !is_snake_case(name) {
            let mut m = text("variable `");
            m.append(name);
            m.append("` must be snake_case");
            return Err(m);
        }
        let id = self.alloc_local_id();
        let last = self.scopes.len() - 1;
        let key = text(name);
        let ghost before = self@;
        if find_var(&self.scopes[last], &key).is_some() {
            let mut m = text("variable `");
            m.append(name);
            m.append("` is already defined");
            return Err(m);
        }
        let mut scope = match self.scopes.pop() {
            Some(sc) => sc,
            None => Vec::new(),
        };
        let ghost old_scope = scope;
        scope.push((key, VarSymbol { id, ty }));
        proof {
            assert(scope_view(scope) =~= scope_view(old_scope).push((name@, VarSym { id: id.0, ty: ty@ })));
        }
        self.scopes.push(scope);
        proof {
            assert(self@.scopes =~= before.scopes.update(last as int, scope_view(old_scope).push((name@, VarSym { id: id.0, ty: ty@ }))));
        }
        Ok(id)
    }

    /// The variable named `name` in the innermost scope that declares it.
    pub fn lookup_var(&self, name: &str) -> (r: Option<&VarSymbol>)
        ensures
            match lookup_var(self@, name@) {
                Some(v) => r is Some && var_sym(*r->Some_0) == v,
                None => r is None,
            },
    {
        let key = text(name);
        let ghost ss = self@.scopes;
        let mut i = self.scopes.len();
        proof { assert(ss.take(i as int) =~= ss); }
        while i > 0
            invariant
                i <= self.scopes@.len(),
                ss == self@.scopes,
                key@ == name@,
                lookup_in(ss, name@) == lookup_in(ss.take(i as int), name@),
            decreases i,
        {
            i = i - 1;
            proof {
                assert(ss.take(i + 1).drop_last() =~= ss.take(i as int));
                assert(ss.take(i + 1).last() == ss[i as int]);
            }
            proof { assert(ss[i as int] == scope_view(self.scopes@[i as int])); }
            match find_var(&self.scopes[i], &key) {
                Some(j) => {
                    proof {
                        let sv = scope_view(self.scopes@[i as int]);
                        assert(sv[j as int] == (self.scopes@[i as int]@[j as int].0@, var_sym(self.scopes@[i as int]@[j as int].1)));
                        assert(get(ss[i as int], name@) == Some(var_sym(self.scopes@[i as int]@[j as int].1)));
                        assert(lookup_in(ss.take(i + 1), name@) == Some(var_sym(self.scopes@[i as int]@[j as int].1)));
                    }
                    return Some(&self.scopes[i][j].1);
                },
                None => {
                    proof {
                        assert(get(ss[i as int], name@) is None);
                        assert(lookup_in(ss.take(i + 1), name@) == lookup_in(ss.take(i as int), name@));
                    }
                },
            }
        }
        None
    }
}

/// Once a prefix of the fields names one twice, so does the whole list.
proof fn lemma_field_list_err_extends(fs: Seq<(Seq<char>, SemTy)>, n: int)
    requires
        0 <= n <= fs.len(),
        field_list(fs.take(n)) is Err,
    ensures
        field_list(fs) == field_list(fs.take(n)),
    decreases fs.len() - n,
{
    if n < fs.len() {
        assert(fs.take(n + 1).drop_last() =~= fs.take(n));
        lemma_field_list_err_extends(fs, n + 1);
    } else {
        assert(fs.take(n) =~= fs);
    }
}

/// Whether an executable result agrees with the result of a specification.
pub open spec fn same_result<T, V>(r: Result<T, String>, o: Result<V, Seq<char>>, view: spec_fn(T) -> V) -> bool {
    match r {
        Ok(a) => o is Ok && view(a) == o->Ok_0,
        Err(m) => o is Err && m@ == o->Err_0,
    }
}


// ---- laws of the symbol table ----

/// `find` after appending an entry: an earlier match stays; otherwise the new entry is
/// found exactly when its key is the one looked for.
pub proof fn lemma_find_push<K, V>(s: Seq<(K, V)>, x: (K, V), k: K)
    ensures
        find(s.push(x), k) == (match find(s, k) {
            Some(i) => Some(i),
            None => if x.0 == k { Some(s.len() as int) } else { None::<int> },
        }),
{
    lemma_find(s, k);
    let t = s.push(x);
    match find(s, k) {
        Some(i) => {
            assert forall|j: int| 0 <= j < i implies t[j].0 != k by { assert(t[j] == s[j]); }
            assert(t[i] == s[i]);
            lemma_find_at(t, k, i);
        },
        None => {
            assert forall|j: int| 0 <= j < s.len() implies t[j].0 != k by { assert(t[j] == s[j]); }
            if x.0 == k {
                lemma_find_at(t, k, s.len() as int);
            } else {
                lemma_find_at(t, k, t.len() as int);
            }
        },
    }
}

/// `get` after `put`: the key holds the new value, every other key its old one.
pub proof fn lemma_get_put<K, V>(s: Seq<(K, V)>, k: K, v: V, k2: K)
    ensures
        get(put(s, k, v), k2) == if k2 == k { Some(v) } else { get(s, k2) },
{
    lemma_find(s, k);
    lemma_find(s, k2);
    match find(s, k) {
        Some(i) => {
            let t = s.update(i, (k, v));
            lemma_find(t, k2);
            match find(s, k2) {
                Some(j) => {
                    assert forall|m: int| 0 <= m < j implies t[m].0 != k2 by {
                        if m == i { assert(s[i].0 == k); } else { assert(t[m] == s[m]); }
                    }
                    if j == i {
                        lemma_find_at(t, k2, j);
                    } else {
                        assert(t[j] == s[j]);
                        lemma_find_at(t, k2, j);
                    }
                },
                None => {
                    assert forall|m: int| 0 <= m < t.len() implies t[m].0 != k2 by {
                        if m == i { assert(s[i].0 == k); } else { assert(t[m] == s[m]); }
                    }
                    lemma_find_at(t, k2, t.len() as int);
                },
            }
        },
        None => {
            lemma_find_push(s, (k, v), k2);
            let t = s.push((k, v));
            match find(s, k2) {
                Some(j) => { assert(t[j] == s[j]); },
                None => { assert(t[s.len() as int] == (k, v)); },
            }
        },
    }
}

/// A declared function is found under its name and the type of its first parameter,
/// with the next number and its signature.
pub proof fn law_define_func_then_lookup(s: SymState, name: Seq<char>, params: Seq<SemTy>, ret: SemTy)
    requires
        define_func(s, name, params, ret).1 is Ok,
    ensures
        lookup_func(define_func(s, name, params, ret).0, name, first_ty(params))
            == Some(FuncSym { id: s.funcs.len() as u64, params, ret }),
{
    let e = ((name, first_ty(params)), FuncSym { id: s.funcs.len() as u64, params, ret });
    lemma_find_push(s.funcs, e, (name, first_ty(params)));
    assert(s.funcs.push(e)[s.funcs.len() as int] == e);
}

/// Declaring a function leaves what every other name and first parameter type finds.
pub proof fn law_define_func_keeps_others(s: SymState, name: Seq<char>, params: Seq<SemTy>, ret: SemTy, other: Seq<char>, first: Option<SemTy>)
    requires
        (other, first) != (name, first_ty(params)),
    ensures
        lookup_func(define_func(s, name, params, ret).0, other, first) == lookup_func(s, other, first),
{
    let e = ((name, first_ty(params)), FuncSym { id: s.funcs.len() as u64, params, ret });
    lemma_find_push(s.funcs, e, (other, first));
    lemma_find(s.funcs, (other, first));
    match find(s.funcs, (other, first)) {
        Some(j) => { assert(s.funcs.push(e)[j] == s.funcs[j]); },
        None => {},
    }
}

/// A variable declared in the innermost scope is found by its name, with the number it
/// was given.
pub proof fn law_define_var_then_lookup(s: SymState, name: Seq<char>, ty: SemTy)
    requires
        s.scopes.len() > 0,
        define_var(s, name, ty).1 is Ok,
    ensures
        lookup_var(define_var(s, name, ty).0, name) == Some(VarSym { id: s.local_id, ty }),
{
    let scope = s.scopes.last();
    let x = (name, VarSym { id: s.local_id, ty });
    let t = define_var(s, name, ty).0;
    lemma_find_push(scope, x, name);
    assert(t.scopes.last() == scope.push(x));
    assert(scope.push(x)[scope.len() as int] == x);
}

/// A name not yet declared in the innermost scope is accepted as a variable exactly when
/// it is snake_case, and gets the next variable number; a name not yet declared as a
/// function with that first parameter type is accepted as a function exactly when it is
/// snake_case.
pub proof fn law_new_names_accepted(s: SymState, name: Seq<char>, ty: SemTy, params: Seq<SemTy>, ret: SemTy)
    requires
        s.scopes.len() > 0,
    ensures
        find(s.scopes.last(), name) is None ==> define_var(s, name, ty).1
            == (if snake_case(name) { Ok::<u64, Seq<char>>(s.local_id) } else { Err("variable `"@ + name + "` must be snake_case"@) }),
        lookup_func(s, name, first_ty(params)) is None ==> (define_func(s, name, params, ret).1 is Ok <==> snake_case(name)),
{
    lemma_find(s.funcs, (name, first_ty(params)));
}

/// Entering a scope and leaving it changes nothing.
pub proof fn law_exit_undoes_enter(s: SymState)
    ensures
        exit_scope(enter_scope(s)) == s,
{
    assert(s.scopes.push(seq![]).drop_last() =~= s.scopes);
}

/// A name declared in an inner scope is forgotten when the scope is left: the name then
/// finds what it found before the scope was entered.
pub proof fn law_scope_shadowing(s: SymState, name: Seq<char>, ty: SemTy)
    ensures
        lookup_var(exit_scope(define_var(enter_scope(s), name, ty).0), name) == lookup_var(s, name),
{
    let s1 = enter_scope(s);
    let s2 = define_var(s1, name, ty).0;
    assert(s2.scopes.drop_last() =~= s.scopes);
}

/// Without a name given twice, the fields keep their order; a name given twice is
/// refused.
pub proof fn law_field_list(fields: Seq<(Seq<char>, SemTy)>)
    ensures
        field_list(fields) is Ok <==> keys_unique(fields),
        field_list(fields) is Ok ==> field_list(fields)->Ok_0 == fields,
    decreases fields.len(),
{
    if fields.len() > 0 {
        let init = fields.drop_last();
        law_field_list(init);
        lemma_entry_index(init, fields.last().0);
        if keys_unique(fields) {
            assert(keys_unique(init)) by {
                assert forall|i: int, j: int| 0 <= i < j < init.len() implies init[i].0 != init[j].0 by {
                    assert(init[i] == fields[i] && init[j] == fields[j]);
                }
            }
            assert forall|j: int| 0 <= j < init.len() implies init[j].0 != fields.last().0 by {
                assert(init[j] == fields[j]);
            }
            assert(init.push(fields.last()) =~= fields);
        } else if keys_unique(init) {
            let (i, j) = choose|i: int, j: int| 0 <= i < j < fields.len() && fields[i].0 == fields[j].0;
            if j < fields.len() - 1 {
                assert(init[i] == fields[i] && init[j] == fields[j]);
            } else {
                assert(init[i] == fields[i]);
            }
        }
    }
}

/// `entry_index` finds a key exactly when some entry has it.
pub proof fn lemma_entry_index(es: Seq<(Seq<char>, SemTy)>, k: Seq<char>)
    ensures
        entry_index(es, k) is Some <==> exists|j: int| 0 <= j < es.len() && #[trigger] es[j].0 == k,
    decreases es.len(),
{
    if es.len() > 0 {
        lemma_entry_index(es.drop_last(), k);
        if exists|j: int| 0 <= j < es.len() - 1 && #[trigger] es[j].0 == k {
            let j = choose|j: int| 0 <= j < es.len() - 1 && #[trigger] es[j].0 == k;
            assert(es.drop_last()[j] == es[j]);
        }
        if exists|j: int| 0 <= j < es.drop_last().len() && #[trigger] es.drop_last()[j].0 == k {
            let j = choose|j: int| 0 <= j < es.drop_last().len() && #[trigger] es.drop_last()[j].0 == k;
            assert(es[j] == es.drop_last()[j]);
        }
    }
}

/// A struct that is declared and given its fields is found with its number and its
/// fields in order.
pub proof fn law_struct_lookup(s: SymState, name: Seq<char>, fields: Seq<(Seq<char>, SemTy)>)
    requires
        define_struct(s, name).1 is Ok,
        define_struct_fields(define_struct(s, name).0, name, fields).1 is Ok,
    ensures
        lookup_struct(define_struct_fields(define_struct(s, name).0, name, fields).0, name)
            == Some((s.struct_ids.len() as u64, fields)),
{
    let id = s.struct_ids.len() as u64;
    let s1 = define_struct(s, name).0;
    lemma_find_push(s.struct_ids, (name, id), name);
    assert(s.struct_ids.push((name, id))[s.struct_ids.len() as int] == (name, id));
    assert(get(s1.struct_ids, name) == Some(id));
    law_field_list(fields);
    lemma_get_put(s1.structs, id, fields, id);
}

/// Every function is filed under the type of its own first parameter.
pub open spec fn funcs_keyed(s: SymState) -> bool {
    forall|i: int| 0 <= i < s.funcs.len() ==> (#[trigger] s.funcs[i]).0.1 == first_ty(s.funcs[i].1.params)
}

/// The empty table files its functions by their first parameter type: it has none.
pub proof fn law_empty_keyed()
    ensures
        funcs_keyed(empty_state()),
{
}

/// Declaring a function files it under its first parameter type; every other operation
/// of the table leaves the functions as they are.
pub proof fn law_table_keeps_keyed(s: SymState, name: Seq<char>, params: Seq<SemTy>, ret: SemTy, ty: SemTy, fields: Seq<(Seq<char>, SemTy)>)
    requires
        funcs_keyed(s),
    ensures
        funcs_keyed(define_func(s, name, params, ret).0),
        define_struct(s, name).0.funcs == s.funcs,
        define_struct_fields(s, name, fields).0.funcs == s.funcs,
        define_var(s, name, ty).0.funcs == s.funcs,
        enter_scope(s).funcs == s.funcs,
        enter_func(s).funcs == s.funcs,
        exit_scope(s).funcs == s.funcs,
{
    let t = define_func(s, name, params, ret).0;
    assert forall|i: int| 0 <= i < t.funcs.len() implies (#[trigger] t.funcs[i]).0.1 == first_ty(t.funcs[i].1.params) by {
        if i < s.funcs.len() && t.funcs != s.funcs {
            assert(t.funcs[i] == s.funcs[i]);
        }
    }
}

/// In a table that files functions by their first parameter type, a function found under
/// a first parameter type has that type first.
pub proof fn law_lookup_func_key(s: SymState, name: Seq<char>, first: Option<SemTy>)
    requires
        funcs_keyed(s),
        lookup_func(s, name, first) is Some,
    ensures
        first_ty(lookup_func(s, name, first)->Some_0.params) == first,
{
    lemma_find(s.funcs, (name, first));
}

} // verus!
