//! The provider/function registry: providers and specification overrides
//! loaded from configuration, deduplicated by name keeping the first
//! occurrence, sorted by name, with shell-style expansions applied to each
//! provider's arguments. Duplicate names and overrides without a matching
//! provider are reported as warnings, never as errors.
use vstd::prelude::*;

use crate::json::Json;
use crate::json::JsonV;
use crate::json::merge_patch;
use crate::json::spec_merge_patch;
use crate::json::spec_obj_get_or_null;
use crate::text::lemma_lex_lt_connected;
use crate::text::lemma_lex_lt_irrefl;
use crate::text::lemma_lex_lt_trans;
use crate::text::lex_lt;
use crate::text::str_eq;
use crate::text::str_lt;

verus! {

/// A registered external command that can describe itself and be invoked.
#[derive(Debug)]
pub struct Provider {
    /// The unique registry key.
    pub name: String,
    /// The command to execute.
    pub command: String,
    /// The arguments to pass, after expansion.
    pub args: Vec<String>,
    /// Whether the command may run without interactive approval.
    pub safe: bool,
}

/// The mathematical shape of a [`Provider`].
pub ghost struct ProviderV {
    pub name: Seq<char>,
    pub command: Seq<char>,
    pub args: Seq<Seq<char>>,
    pub safe: bool,
}

impl View for Provider {
    type V = ProviderV;

    open spec fn view(&self) -> ProviderV {
        ProviderV {
            name: self.name@,
            command: self.command@,
            args: self.args.deep_view(),
            safe: self.safe,
        }
    }
}

/// A function specification: what a provider reports about itself, and also
/// the shape of a configured override patch.
#[derive(Debug)]
pub struct FunctionSpec {
    pub name: String,
    pub description: Option<String>,
    pub parameters: Option<Json>,
}

/// The mathematical shape of a [`FunctionSpec`].
pub ghost struct FunctionSpecV {
    pub name: Seq<char>,
    pub description: Option<Seq<char>>,
    pub parameters: Option<JsonV>,
}

impl View for FunctionSpec {
    type V = FunctionSpecV;

    open spec fn view(&self) -> FunctionSpecV {
        FunctionSpecV {
            name: self.name@,
            description: self.description.deep_view(),
            parameters: match self.parameters {
                Some(j) => Some(j@),
                None => None,
            },
        }
    }
}

fn clone_strings(v: &Vec<String>) -> (r: Vec<String>)
    ensures
        r.deep_view() == v.deep_view(),
{
    let mut out: Vec<String> = Vec::new();
    let n = v.len();
    let mut i: usize = 0;
    while i < n
        invariant
            0 <= i <= n,
            n == v@.len(),
            out@.len() == i,
            forall|k: int| 0 <= k < i ==> out@[k]@ == v@[k]@,
        decreases n - i,
    {
        let s = v[i].clone();
        out.push(s);
        i = i + 1;
    }
    proof {
        assert(out.deep_view() =~= v.deep_view());
    }
    out
}

impl Clone for Provider {
    /// Cloning preserves the denoted provider.
    fn clone(&self) -> (r: Self)
        ensures
            r@ == self@,
    {
        Provider {
            name: self.name.clone(),
            command: self.command.clone(),
            args: clone_strings(&self.args),
            safe: self.safe,
        }
    }
}

impl Clone for FunctionSpec {
    /// Cloning preserves the denoted specification.
    fn clone(&self) -> (r: Self)
        ensures
            r@ == self@,
    {
        FunctionSpec {
            name: self.name.clone(),
            description: match &self.description {
                Some(s) => Some(s.clone()),
                None => None,
            },
            parameters: match &self.parameters {
                Some(j) => Some(j.clone()),
                None => None,
            },
        }
    }
}

/// The views of a provider list.
pub open spec fn provs_view(v: Seq<Provider>) -> Seq<ProviderV> {
    Seq::new(v.len(), |i: int| v[i]@)
}

/// The views of a specification list.
pub open spec fn specs_view(v: Seq<FunctionSpec>) -> Seq<FunctionSpecV> {
    Seq::new(v.len(), |i: int| v[i]@)
}

/// The first provider with the given name, if any.
pub open spec fn spec_find_provider(ps: Seq<ProviderV>, n: Seq<char>) -> Option<ProviderV>
    decreases ps.len(),
{
    if ps.len() == 0 {
        None
    } else if ps[0].name == n {
        Some(ps[0])
    } else {
        spec_find_provider(ps.drop_first(), n)
    }
}

/// The first specification with the given name, if any.
pub open spec fn spec_find_spec(fs: Seq<FunctionSpecV>, n: Seq<char>) -> Option<FunctionSpecV>
    decreases fs.len(),
{
    if fs.len() == 0 {
        None
    } else if fs[0].name == n {
        Some(fs[0])
    } else {
        spec_find_spec(fs.drop_first(), n)
    }
}

proof fn lemma_find_provider_cons(e: ProviderV, rest: Seq<ProviderV>, n: Seq<char>)
    ensures
        spec_find_provider(seq![e] + rest, n) == (if e.name == n {
            Some(e)
        } else {
            spec_find_provider(rest, n)
        }),
{
    assert((seq![e] + rest)[0] == e);
    assert((seq![e] + rest).drop_first() =~= rest);
}

proof fn lemma_find_spec_cons(e: FunctionSpecV, rest: Seq<FunctionSpecV>, n: Seq<char>)
    ensures
        spec_find_spec(seq![e] + rest, n) == (if e.name == n {
            Some(e)
        } else {
            spec_find_spec(rest, n)
        }),
{
    assert((seq![e] + rest)[0] == e);
    assert((seq![e] + rest).drop_first() =~= rest);
}

/// A provider list whose names are strictly sorted.
pub open spec fn providers_sorted(ps: Seq<ProviderV>) -> bool {
    forall|i: int, j: int| 0 <= i < j < ps.len() ==> lex_lt(ps[i].name, ps[j].name)
}

/// A specification list whose names are strictly sorted.
pub open spec fn specs_sorted(fs: Seq<FunctionSpecV>) -> bool {
    forall|i: int, j: int| 0 <= i < j < fs.len() ==> lex_lt(fs[i].name, fs[j].name)
}

/// Some provider in the list carries the given name.
pub open spec fn has_provider_name(ps: Seq<ProviderV>, n: Seq<char>) -> bool {
    exists|j: int| 0 <= j < ps.len() && ps[j].name == n
}

/// Some specification in the list carries the given name.
pub open spec fn has_spec_name(fs: Seq<FunctionSpecV>, n: Seq<char>) -> bool {
    exists|j: int| 0 <= j < fs.len() && fs[j].name == n
}

/// `p` is the first entry of `ps` that carries its name.
pub open spec fn is_first_with_name(ps: Seq<ProviderV>, p: ProviderV) -> bool {
    exists|j: int|
        0 <= j < ps.len() && ps[j] == p && (forall|k: int| 0 <= k < j ==> ps[k].name != p.name)
}

/// `f` is the first entry of `fs` that carries its name.
pub open spec fn is_first_spec_with_name(fs: Seq<FunctionSpecV>, f: FunctionSpecV) -> bool {
    exists|j: int|
        0 <= j < fs.len() && fs[j] == f && (forall|k: int| 0 <= k < j ==> fs[k].name != f.name)
}

/// A registry item keyed by a name.
trait Named: View + Sized {
    /// The name the item is keyed by.
    spec fn key(&self) -> Seq<char>;

    /// The key, as text.
    fn key_str(&self) -> (r: &str)
        ensures
            r@ == self.key(),
    ;

    /// An equal copy.
    fn duplicate(&self) -> (r: Self)
        ensures
            r@ == self@,
            r.key() == self.key(),
    ;
}

impl Named for Provider {
    closed spec fn key(&self) -> Seq<char> {
        self.name@
    }

    fn key_str(&self) -> (r: &str) {
        self.name.as_str()
    }

    fn duplicate(&self) -> (r: Self) {
        self.clone()
    }
}

impl Named for FunctionSpec {
    closed spec fn key(&self) -> Seq<char> {
        self.name@
    }

    fn key_str(&self) -> (r: &str) {
        self.name.as_str()
    }

    fn duplicate(&self) -> (r: Self) {
        self.clone()
    }
}

/// `x` equals, by value and key, the first item of `input` that carries
/// its key.
spec fn is_first_keyed<T: Named>(input: Seq<T>, x: T) -> bool {
    exists|j: int|
        0 <= j < input.len() && x@ == (#[trigger] input[j])@ && x.key() == input[j].key() && (
        forall|k: int| 0 <= k < j ==> input[k].key() != input[j].key())
}

/// Some item of `out` carries the key of `input[j]`.
spec fn key_is_kept<T: Named>(input: Seq<T>, out: Seq<T>, j: int) -> bool {
    exists|e: int| 0 <= e < out.len() && (#[trigger] out[e]).key() == input[j].key()
}

/// Keep the first occurrence of each name, in sorted name order: the one
/// pass behind both provider and override deduplication.
fn dedup_sort_by_name<T: Named>(input: &Vec<T>) -> (out: Vec<T>)
    ensures
        forall|i: int, j: int| 0 <= i < j < out@.len() ==> lex_lt(out@[i].key(), out@[j].key()),
        forall|e: int| 0 <= e < out@.len() ==> is_first_keyed(input@, #[trigger] out@[e]),
        forall|j: int| 0 <= j < input@.len() ==> key_is_kept(input@, out@, j),
{
    let mut out: Vec<T> = Vec::new();
    let n = input.len();
    let mut t: usize = 0;
    while t < n
        invariant
            0 <= t <= n,
            n == input@.len(),
            forall|i: int, j: int| 0 <= i < j < out@.len() ==> lex_lt(
                out@[i].key(),
                out@[j].key(),
            ),
            forall|e: int| 0 <= e < out@.len() ==> is_first_keyed(input@, #[trigger] out@[e]),
            forall|j: int| 0 <= j < t ==> key_is_kept(input@, out@, j),
        decreases n - t,
    {
        let ghost pk = input@[t as int].key();
        let m = out.len();
        let mut idx: usize = 0;
        while idx < m && str_lt(out[idx].key_str(), input[t].key_str())
            invariant
                0 <= idx <= m,
                t < n,
                n == input@.len(),
                m == out@.len(),
                pk == input@[t as int].key(),
                forall|k: int| 0 <= k < idx ==> lex_lt((#[trigger] out@[k]).key(), pk),
            decreases m - idx,
        {
            idx = idx + 1;
        }
        let ghost ov = out@;
        let duplicate = idx < out.len() && str_eq(out[idx].key_str(), input[t].key_str());
        proof {
            if !duplicate {
                assert forall|e: int| 0 <= e < ov.len() implies (#[trigger] ov[e]).key()
                    != pk by {
                    if e < idx {
                        assert(lex_lt(ov[e].key(), pk));
                        lemma_lex_lt_irrefl(pk);
                    } else if e > idx {
                        assert(lex_lt(ov[idx as int].key(), ov[e].key()));
                        lemma_lex_lt_irrefl(ov[e].key());
                    }
                }
                if idx < ov.len() {
                    assert(lex_lt(pk, ov[idx as int].key())) by {
                        if !lex_lt(pk, ov[idx as int].key()) {
                            lemma_lex_lt_connected(ov[idx as int].key(), pk);
                        }
                    }
                }
                assert forall|j: int| 0 <= j < t implies (#[trigger] input@[j]).key() != pk by {
                    assert(key_is_kept(input@, ov, j));
                    let e = choose|e: int|
                        0 <= e < ov.len() && (#[trigger] ov[e]).key() == input@[j].key();
                    assert(ov[e].key() != pk);
                }
            }
        }
        if duplicate {
            proof {
                assert forall|j: int| 0 <= j < t + 1 implies key_is_kept(
                    input@,
                    out@,
                    j,
                ) by {
                    if j == t {
                        assert(out@[idx as int].key() == input@[j].key());
                    }
                }
            }
        } else {
            let ghost ow = out@;
            let cloned = input[t].duplicate();
            out.insert(idx, cloned);
            proof {
                ow.insert_ensures(idx as int, cloned);
                let nv = out@;
                assert(forall|k: int| 0 <= k < idx ==> nv[k] == ov[k]);
                assert(nv[idx as int] == cloned);
                assert(forall|k: int| idx < k < nv.len() ==> nv[k] == ov[k - 1]);
                assert forall|i: int, j: int| 0 <= i < j < nv.len() implies lex_lt(
                    nv[i].key(),
                    nv[j].key(),
                ) by {
                    if j < idx || i > idx {
                    } else if i == idx {
                        if j == idx + 1 {
                            assert(nv[j] == ov[idx as int]);
                        } else {
                            lemma_lex_lt_trans(pk, ov[idx as int].key(), ov[j - 1].key());
                        }
                    } else if j == idx {
                        assert(lex_lt(ov[i].key(), pk));
                    }
                }
                assert forall|e: int| 0 <= e < nv.len() implies is_first_keyed(
                    input@,
                    #[trigger] nv[e],
                ) by {
                    if e == idx {
                        assert(nv[e]@ == input@[t as int]@ && nv[e].key()
                            == input@[t as int].key());
                        assert(forall|k: int|
                            0 <= k < t ==> (#[trigger] input@[k]).key() != input@[
                            t as int].key());
                    } else {
                        let q = if e < idx {
                            ov[e]
                        } else {
                            ov[e - 1]
                        };
                        assert(nv[e] == q);
                        assert(is_first_keyed(input@, q));
                    }
                }
                assert forall|j: int| 0 <= j < t + 1 implies key_is_kept(
                    input@,
                    nv,
                    j,
                ) by {
                    if j == t {
                        assert(nv[idx as int].key() == input@[j].key());
                    } else {
                        assert(key_is_kept(input@, ov, j));
                        let e = choose|e: int|
                            0 <= e < ov.len() && (#[trigger] ov[e]).key() == input@[j].key();
                        if e < idx {
                            assert(nv[e].key() == input@[j].key());
                        } else {
                            assert(nv[e + 1].key() == input@[j].key());
                        }
                    }
                }
            }
        }
        t = t + 1;
    }
    out
}

/// Keep the first occurrence of each provider name, in sorted name order.
fn dedup_sort_providers(input: &Vec<Provider>) -> (out: Vec<Provider>)
    ensures
        providers_sorted(provs_view(out@)),
        forall|e: int| 0 <= e < out@.len() ==> is_first_with_name(
            provs_view(input@),
            provs_view(out@)[e],
        ),
        forall|j: int| 0 <= j < input@.len() ==> has_provider_name(
            provs_view(out@),
            provs_view(input@)[j].name,
        ),
{
    let out = dedup_sort_by_name(input);
    proof {
        assert forall|e: int| 0 <= e < out@.len() implies is_first_with_name(
            provs_view(input@),
            provs_view(out@)[e],
        ) by {
            assert(is_first_keyed(input@, out@[e]));
            let j = choose|j: int|
                0 <= j < input@.len() && out@[e]@ == (#[trigger] input@[j])@ && out@[e].key()
                    == input@[j].key() && (forall|k: int|
                    0 <= k < j ==> input@[k].key() != input@[j].key());
            assert(provs_view(input@)[j] == provs_view(out@)[e]);
            assert(forall|k: int|
                0 <= k < j ==> (#[trigger] provs_view(input@)[k]).name != provs_view(
                    input@,
                )[j].name);
        }
        assert forall|j: int| 0 <= j < input@.len() implies has_provider_name(
            provs_view(out@),
            provs_view(input@)[j].name,
        ) by {
            assert(key_is_kept(input@, out@, j));
            let e = choose|e: int|
                0 <= e < out@.len() && (#[trigger] out@[e]).key() == input@[j].key();
            assert(provs_view(out@)[e].name == provs_view(input@)[j].name);
        }
    }
    out
}

/// Keep the first occurrence of each specification name, in sorted name
/// order.
fn dedup_sort_specs(input: &Vec<FunctionSpec>) -> (out: Vec<FunctionSpec>)
    ensures
        specs_sorted(specs_view(out@)),
        forall|e: int| 0 <= e < out@.len() ==> is_first_spec_with_name(
            specs_view(input@),
            specs_view(out@)[e],
        ),
        forall|j: int| 0 <= j < input@.len() ==> has_spec_name(
            specs_view(out@),
            specs_view(input@)[j].name,
        ),
{
    let out = dedup_sort_by_name(input);
    proof {
        assert forall|e: int| 0 <= e < out@.len() implies is_first_spec_with_name(
            specs_view(input@),
            specs_view(out@)[e],
        ) by {
            assert(is_first_keyed(input@, out@[e]));
            let j = choose|j: int|
                0 <= j < input@.len() && out@[e]@ == (#[trigger] input@[j])@ && out@[e].key()
                    == input@[j].key() && (forall|k: int|
                    0 <= k < j ==> input@[k].key() != input@[j].key());
            assert(specs_view(input@)[j] == specs_view(out@)[e]);
            assert(forall|k: int|
                0 <= k < j ==> (#[trigger] specs_view(input@)[k]).name != specs_view(
                    input@,
                )[j].name);
        }
        assert forall|j: int| 0 <= j < input@.len() implies has_spec_name(
            specs_view(out@),
            specs_view(input@)[j].name,
        ) by {
            assert(key_is_kept(input@, out@, j));
            let e = choose|e: int|
                0 <= e < out@.len() && (#[trigger] out@[e]).key() == input@[j].key();
            assert(specs_view(out@)[e].name == specs_view(input@)[j].name);
        }
    }
    out
}

/// How many of the first `i` providers carry the given name.
pub open spec fn count_provider_name_to(ps: Seq<ProviderV>, n: Seq<char>, i: int) -> nat
    decreases i,
{
    if i <= 0 {
        0
    } else {
        count_provider_name_to(ps, n, i - 1) + (if ps[i - 1].name == n {
            1nat
        } else {
            0nat
        })
    }
}

/// How many providers carry the given name.
pub open spec fn count_provider_name(ps: Seq<ProviderV>, n: Seq<char>) -> nat {
    count_provider_name_to(ps, n, ps.len() as int)
}

/// How many of the first `i` specifications carry the given name.
pub open spec fn count_spec_name_to(fs: Seq<FunctionSpecV>, n: Seq<char>, i: int) -> nat
    decreases i,
{
    if i <= 0 {
        0
    } else {
        count_spec_name_to(fs, n, i - 1) + (if fs[i - 1].name == n {
            1nat
        } else {
            0nat
        })
    }
}

/// How many specifications carry the given name.
pub open spec fn count_spec_name(fs: Seq<FunctionSpecV>, n: Seq<char>) -> nat {
    count_spec_name_to(fs, n, fs.len() as int)
}

#[verifier::loop_isolation(false)]
fn count_provider_occurrences(input: &Vec<Provider>, name: &str) -> (c: usize)
    ensures
        c as nat == count_provider_name(provs_view(input@), name@),
{
    let n = input.len();
    let mut c: usize = 0;
    let mut i: usize = 0;
    while i < n
        invariant
            0 <= i <= n,
            c <= i,
            c as nat == count_provider_name_to(provs_view(input@), name@, i as int),
        decreases n - i,
    {
        if str_eq(input[i].name.as_str(), name) {
            c = c + 1;
        }
        i = i + 1;
    }
    c
}

#[verifier::loop_isolation(false)]
fn count_spec_occurrences(input: &Vec<FunctionSpec>, name: &str) -> (c: usize)
    ensures
        c as nat == count_spec_name(specs_view(input@), name@),
{
    let n = input.len();
    let mut c: usize = 0;
    let mut i: usize = 0;
    while i < n
        invariant
            0 <= i <= n,
            c <= i,
            c as nat == count_spec_name_to(specs_view(input@), name@, i as int),
        decreases n - i,
    {
        if str_eq(input[i].name.as_str(), name) {
            c = c + 1;
        }
        i = i + 1;
    }
    c
}

#[verifier::loop_isolation(false)]
fn any_provider_named(ps: &Vec<Provider>, name: &str) -> (b: bool)
    ensures
        b == has_provider_name(provs_view(ps@), name@),
{
    let n = ps.len();
    let mut i: usize = 0;
    while i < n
        invariant
            0 <= i <= n,
            forall|k: int| 0 <= k < i ==> provs_view(ps@)[k].name != name@,
        decreases n - i,
    {
        if str_eq(ps[i].name.as_str(), name) {
            proof {
                assert(provs_view(ps@)[i as int].name == name@);
            }
            return true;
        }
        i = i + 1;
    }
    proof {
        if has_provider_name(provs_view(ps@), name@) {
            let j = choose|j: int|
                0 <= j < provs_view(ps@).len() && provs_view(ps@)[j].name == name@;
            assert(provs_view(ps@)[j].name != name@);
        }
    }
    false
}

/// A non-fatal observation made while loading the registry.
#[derive(Debug)]
pub enum LoadWarning {
    /// A provider name occurred more than once; the first occurrence wins.
    DuplicateProvider { name: String, count: usize },
    /// An override name occurred more than once; the first occurrence wins.
    DuplicateFunction { name: String, count: usize },
    /// An override has no provider of the same name.
    FunctionWithoutProvider { name: String },
}

/// The mathematical shape of a [`LoadWarning`].
pub ghost enum LoadWarningV {
    DuplicateProvider { name: Seq<char>, count: int },
    DuplicateFunction { name: Seq<char>, count: int },
    FunctionWithoutProvider { name: Seq<char> },
}

impl View for LoadWarning {
    type V = LoadWarningV;

    open spec fn view(&self) -> LoadWarningV {
        match self {
            LoadWarning::DuplicateProvider { name, count } => (LoadWarningV::DuplicateProvider {
                name: name@,
                count: *count as int,
            }),
            LoadWarning::DuplicateFunction { name, count } => (LoadWarningV::DuplicateFunction {
                name: name@,
                count: *count as int,
            }),
            LoadWarning::FunctionWithoutProvider { name } => (
            LoadWarningV::FunctionWithoutProvider { name: name@ }),
        }
    }
}

/// The views of a warning list.
pub open spec fn warns_view(v: Seq<LoadWarning>) -> Seq<LoadWarningV> {
    Seq::new(v.len(), |i: int| v[i]@)
}

/// The duplicate-provider warnings for the first `i` kept providers: one
/// warning, with the occurrence count, per name that occurred more than
/// once in the configuration.
pub open spec fn spec_provider_warnings(
    kept: Seq<ProviderV>,
    input: Seq<ProviderV>,
    i: int,
) -> Seq<LoadWarningV>
    decreases i,
{
    if i <= 0 {
        Seq::empty()
    } else {
        let w = spec_provider_warnings(kept, input, i - 1);
        let c = count_provider_name(input, kept[i - 1].name);
        if c > 1 {
            w.push(
                LoadWarningV::DuplicateProvider { name: kept[i - 1].name, count: c as int },
            )
        } else {
            w
        }
    }
}

/// The warnings for the first `i` kept overrides: a duplicate warning per
/// name that occurred more than once, and a missing-provider warning per
/// override that no provider matches.
pub open spec fn spec_function_warnings(
    kept: Seq<FunctionSpecV>,
    input: Seq<FunctionSpecV>,
    providers: Seq<ProviderV>,
    i: int,
) -> Seq<LoadWarningV>
    decreases i,
{
    if i <= 0 {
        Seq::empty()
    } else {
        let w = spec_function_warnings(kept, input, providers, i - 1);
        let name = kept[i - 1].name;
        let c = count_spec_name(input, name);
        let w2 = if c > 1 {
            w.push(LoadWarningV::DuplicateFunction { name: name, count: c as int })
        } else {
            w
        };
        if !has_provider_name(providers, name) {
            w2.push(LoadWarningV::FunctionWithoutProvider { name: name })
        } else {
            w2
        }
    }
}

/// Text that expansion leaves alone: it holds no environment reference and
/// does not begin with a tilde.
pub open spec fn plain_text(s: Seq<char>) -> bool {
    (forall|i: int| 0 <= i < s.len() ==> s[i] != '$') && (s.len() > 0 ==> s[0] != '~')
}

/// Loading fails when a shell-style expansion in a provider argument fails.
#[derive(Debug)]
pub struct ExpandError {
    /// The argument whose expansion failed.
    pub argument: String,
    /// What the expansion reported.
    pub message: String,
}

/// Relies on `shellexpand::full`: expands `$VAR`/`${VAR}` references from
/// the environment and a leading `~` from the home directory, so the result
/// depends on the process environment; text with no `$` and no leading `~`
/// comes back unchanged, and only an environment lookup can fail.
#[verifier::external_body]
fn expand_arg(arg: &str) -> (r: Result<String, String>)
    ensures
        (match r {
            Ok(s) => plain_text(arg@) ==> s@ == arg@,
            Err(_) => !plain_text(arg@),
        }),
{
    match shellexpand::full(arg) {
        Ok(s) => Ok(s.into_owned()),
        Err(e) => Err(e.to_string()),
    }
}

/// `e` is `orig` with its arguments expanded: only the arguments may have
/// changed, and a plain argument not even that.
pub open spec fn matches_expanded(orig: ProviderV, e: ProviderV) -> bool {
    &&& e.name == orig.name
    &&& e.command == orig.command
    &&& e.safe == orig.safe
    &&& e.args.len() == orig.args.len()
    &&& forall|a: int|
        0 <= a < orig.args.len() && plain_text(orig.args[a]) ==> e.args[a] == orig.args[a]
}

/// `p` is, up to argument expansion, the first entry of `input` that
/// carries its name.
pub open spec fn is_expansion_of_first(input: Seq<ProviderV>, p: ProviderV) -> bool {
    exists|j: int|
        0 <= j < input.len() && matches_expanded(input[j], p) && (forall|k: int|
            0 <= k < j ==> input[k].name != p.name)
}

/// Every argument of every provider is plain text.
pub open spec fn all_args_plain(ps: Seq<ProviderV>) -> bool {
    forall|i: int, a: int|
        0 <= i < ps.len() && 0 <= a < ps[i].args.len() ==> plain_text(ps[i].args[a])
}

#[verifier::loop_isolation(false)]
fn expand_provider_args(input: Vec<Provider>) -> (r: Result<Vec<Provider>, ExpandError>)
    ensures
        (match r {
            Ok(out) => {
                &&& out@.len() == input@.len()
                &&& forall|e: int|
                    0 <= e < input@.len() ==> matches_expanded(
                        provs_view(input@)[e],
                        provs_view(out@)[e],
                    )
            },
            Err(_) => true,
        }),
        all_args_plain(provs_view(input@)) ==> r is Ok,
{
    let ghost ivp = provs_view(input@);
    let n = input.len();
    let mut out: Vec<Provider> = Vec::new();
    let mut e: usize = 0;
    while e < n
        invariant
            0 <= e <= n,
            out@.len() == e,
            forall|k: int| 0 <= k < e ==> matches_expanded(ivp[k], provs_view(out@)[k]),
        decreases n - e,
    {
        let p = &input[e];
        let na = p.args.len();
        let mut args: Vec<String> = Vec::new();
        let mut a: usize = 0;
        while a < na
            invariant
                0 <= a <= na,
                args@.len() == a,
                forall|k: int|
                    0 <= k < a && plain_text(ivp[e as int].args[k]) ==> args@[k]@
                        == ivp[e as int].args[k],
            decreases na - a,
        {
            let arg = &p.args[a];
            match expand_arg(arg.as_str()) {
                Ok(s) => {
                    args.push(s);
                },
                Err(message) => {
                    proof {
                        if all_args_plain(ivp) {
                            assert(plain_text(ivp[e as int].args[a as int]));
                        }
                    }
                    return Err(ExpandError { argument: arg.clone(), message });
                },
            }
            a = a + 1;
        }
        let expanded = Provider {
            name: p.name.clone(),
            command: p.command.clone(),
            args,
            safe: p.safe,
        };
        out.push(expanded);
        e = e + 1;
    }
    Ok(out)
}

#[verifier::loop_isolation(false)]
fn build_provider_warnings(
    kept: &Vec<Provider>,
    input: &Vec<Provider>,
    warnings: &mut Vec<LoadWarning>,
)
    ensures
        warns_view(final(warnings)@) == warns_view(old(warnings)@) + spec_provider_warnings(
            provs_view(kept@),
            provs_view(input@),
            kept@.len() as int,
        ),
{
    let ghost kv = provs_view(kept@);
    let ghost iv = provs_view(input@);
    let ghost base = warns_view(warnings@);
    let n = kept.len();
    let mut i: usize = 0;
    proof {
        assert(base + spec_provider_warnings(kv, iv, 0) =~= base);
    }
    while i < n
        invariant
            0 <= i <= n,
            warns_view(warnings@) == base + spec_provider_warnings(kv, iv, i as int),
        decreases n - i,
    {
        let c = count_provider_occurrences(input, kept[i].name.as_str());
        if c > 1 {
            let ghost before = warns_view(warnings@);
            let ghost wv = LoadWarningV::DuplicateProvider { name: kv[i as int].name, count: c as int };
            warnings.push(LoadWarning::DuplicateProvider { name: kept[i].name.clone(), count: c });
            proof {
                assert(warns_view(warnings@) =~= before.push(wv));
                assert(base + spec_provider_warnings(kv, iv, i as int + 1) =~= (base
                    + spec_provider_warnings(kv, iv, i as int)).push(wv));
            }
        }
        i = i + 1;
    }
}

#[verifier::loop_isolation(false)]
fn build_function_warnings(
    kept: &Vec<FunctionSpec>,
    input: &Vec<FunctionSpec>,
    providers: &Vec<Provider>,
    warnings: &mut Vec<LoadWarning>,
)
    ensures
        warns_view(final(warnings)@) == warns_view(old(warnings)@) + spec_function_warnings(
            specs_view(kept@),
            specs_view(input@),
            provs_view(providers@),
            kept@.len() as int,
        ),
{
    let ghost kv = specs_view(kept@);
    let ghost iv = specs_view(input@);
    let ghost pv = provs_view(providers@);
    let ghost base = warns_view(warnings@);
    let n = kept.len();
    let mut i: usize = 0;
    proof {
        assert(base + spec_function_warnings(kv, iv, pv, 0) =~= base);
    }
    while i < n
        invariant
            0 <= i <= n,
            warns_view(warnings@) == base + spec_function_warnings(kv, iv, pv, i as int),
        decreases n - i,
    {
        let ghost mid = spec_function_warnings(kv, iv, pv, i as int);
        let c = count_spec_occurrences(input, kept[i].name.as_str());
        if c > 1 {
            let ghost before = warns_view(warnings@);
            let ghost wv = LoadWarningV::DuplicateFunction { name: kv[i as int].name, count: c as int };
            warnings.push(LoadWarning::DuplicateFunction { name: kept[i].name.clone(), count: c });
            proof {
                assert(warns_view(warnings@) =~= before.push(wv));
            }
        }
        if !any_provider_named(providers, kept[i].name.as_str()) {
            let ghost before = warns_view(warnings@);
            let ghost wv = LoadWarningV::FunctionWithoutProvider { name: kv[i as int].name };
            warnings.push(LoadWarning::FunctionWithoutProvider { name: kept[i].name.clone() });
            proof {
                assert(warns_view(warnings@) =~= before.push(wv));
            }
        }
        proof {
            let w = mid;
            let c2 = count_spec_name(iv, kv[i as int].name);
            let w2 = if c2 > 1 {
                w.push(
                    LoadWarningV::DuplicateFunction { name: kv[i as int].name, count: c2 as int },
                )
            } else {
                w
            };
            let w3 = if !has_provider_name(pv, kv[i as int].name) {
                w2.push(LoadWarningV::FunctionWithoutProvider { name: kv[i as int].name })
            } else {
                w2
            };
            assert(spec_function_warnings(kv, iv, pv, i as int + 1) == w3);
            assert(warns_view(warnings@) =~= base + w3);
        }
        i = i + 1;
    }
}

/// The set of providers and specification overrides the conversation loop
/// consults, immutable once loaded.
#[derive(Debug)]
pub struct Functions {
    provider: Vec<Provider>,
    function: Vec<FunctionSpec>,
}

/// The mathematical shape of a [`Functions`] registry.
pub ghost struct FunctionsV {
    pub provider: Seq<ProviderV>,
    pub function: Seq<FunctionSpecV>,
}

impl View for Functions {
    type V = FunctionsV;

    closed spec fn view(&self) -> FunctionsV {
        FunctionsV { provider: provs_view(self.provider@), function: specs_view(self.function@) }
    }
}

impl Functions {
    /// Build the registry from the provider and override lists read out of
    /// configuration: sort each by name, keep the first occurrence of each
    /// name, and expand shell-style references in provider arguments. A
    /// failed expansion fails the whole load; duplicate names and overrides
    /// without a provider are returned as warnings, in registry order.
    pub fn load(provider: Vec<Provider>, function: Vec<FunctionSpec>) -> (r: Result<
        (Functions, Vec<LoadWarning>),
        ExpandError,
    >)
        ensures
            (match r {
                Ok(fw) => ({
                    let f = fw.0@;
                    &&& providers_sorted(f.provider)
                    &&& specs_sorted(f.function)
                    &&& forall|e: int|
                        0 <= e < f.provider.len() ==> is_expansion_of_first(
                            provs_view(provider@),
                            f.provider[e],
                        )
                    &&& forall|j: int|
                        0 <= j < provider@.len() ==> has_provider_name(
                            f.provider,
                            provs_view(provider@)[j].name,
                        )
                    &&& forall|e: int|
                        0 <= e < f.function.len() ==> is_first_spec_with_name(
                            specs_view(function@),
                            f.function[e],
                        )
                    &&& forall|j: int|
                        0 <= j < function@.len() ==> has_spec_name(
                            f.function,
                            specs_view(function@)[j].name,
                        )
                    &&& warns_view(fw.1@) == spec_provider_warnings(
                        f.provider,
                        provs_view(provider@),
                        f.provider.len() as int,
                    ) + spec_function_warnings(
                        f.function,
                        specs_view(function@),
                        f.provider,
                        f.function.len() as int,
                    )
                }),
                Err(_) => true,
            }),
            all_args_plain(provs_view(provider@)) ==> r is Ok,
    {
        let ghost ipv = provs_view(provider@);
        let ghost ifv = specs_view(function@);
        let kept = dedup_sort_providers(&provider);
        let ghost ksv = provs_view(kept@);
        proof {
            if all_args_plain(ipv) {
                assert forall|e: int, a: int|
                    0 <= e < ksv.len() && 0 <= a < ksv[e].args.len() implies plain_text(
                    ksv[e].args[a],
                ) by {
                    let j = choose|j: int|
                        0 <= j < ipv.len() && ipv[j] == ksv[e] && (forall|k: int|
                            0 <= k < j ==> ipv[k].name != ksv[e].name);
                    assert(plain_text(ipv[j].args[a]));
                }
            }
        }
        let expanded = match expand_provider_args(kept) {
            Ok(v) => v,
            Err(e) => {
                return Err(e);
            },
        };
        let ghost epv = provs_view(expanded@);
        proof {
            assert forall|i: int, j: int| 0 <= i < j < epv.len() implies lex_lt(
                epv[i].name,
                epv[j].name,
            ) by {
                assert(lex_lt(ksv[i].name, ksv[j].name));
            }
            assert forall|e: int| 0 <= e < epv.len() implies is_expansion_of_first(
                ipv,
                epv[e],
            ) by {
                let j = choose|j: int|
                    0 <= j < ipv.len() && ipv[j] == ksv[e] && (forall|k: int|
                        0 <= k < j ==> ipv[k].name != ksv[e].name);
                assert(matches_expanded(ipv[j], epv[e]));
                assert(forall|k: int| 0 <= k < j ==> ipv[k].name != epv[e].name);
            }
            assert forall|j: int| 0 <= j < ipv.len() implies has_provider_name(
                epv,
                ipv[j].name,
            ) by {
                let e = choose|e: int| 0 <= e < ksv.len() && ksv[e].name == ipv[j].name;
                assert(epv[e].name == ipv[j].name);
            }
        }
        let function_kept = dedup_sort_specs(&function);
        let mut warnings: Vec<LoadWarning> = Vec::new();
        build_provider_warnings(&expanded, &provider, &mut warnings);
        build_function_warnings(&function_kept, &function, &expanded, &mut warnings);
        proof {
            assert(warns_view(warnings@) =~= spec_provider_warnings(
                epv,
                ipv,
                epv.len() as int,
            ) + spec_function_warnings(
                specs_view(function_kept@),
                ifv,
                epv,
                specs_view(function_kept@).len() as int,
            ));
        }
        let f = Functions { provider: expanded, function: function_kept };
        Ok((f, warnings))
    }

    /// The providers, in sorted order.
    pub fn providers(&self) -> (r: &Vec<Provider>)
        ensures
            provs_view(r@) == self@.provider,
    {
        &self.provider
    }

    /// The specification overrides, in sorted order.
    pub fn functions(&self) -> (r: &Vec<FunctionSpec>)
        ensures
            specs_view(r@) == self@.function,
    {
        &self.function
    }

    /// The first provider with the given name, if any.
    pub fn get_provider(&self, name: &str) -> (r: Option<&Provider>)
        ensures
            (match r {
                Some(p) => spec_find_provider(self@.provider, name@) == Some(p@),
                None => spec_find_provider(self@.provider, name@) is None,
            }),
    {
        let ghost ps = self@.provider;
        let n = self.provider.len();
        let mut i: usize = 0;
        proof {
            assert(ps.skip(0) =~= ps);
        }
        while i < n
            invariant
                0 <= i <= n,
                n == self.provider@.len(),
                ps == self@.provider,
                spec_find_provider(ps, name@) == spec_find_provider(ps.skip(i as int), name@),
            decreases n - i,
        {
            proof {
                assert(ps.skip(i as int) =~= seq![ps[i as int]] + ps.skip(i as int + 1));
                lemma_find_provider_cons(ps[i as int], ps.skip(i as int + 1), name@);
            }
            if str_eq(self.provider[i].name.as_str(), name) {
                return Some(&self.provider[i]);
            }
            i = i + 1;
        }
        proof {
            assert(ps.skip(n as int) =~= Seq::<ProviderV>::empty());
        }
        None
    }

    /// The first specification override with the given name, if any.
    pub fn get_function(&self, name: &str) -> (r: Option<&FunctionSpec>)
        ensures
            (match r {
                Some(f) => spec_find_spec(self@.function, name@) == Some(f@),
                None => spec_find_spec(self@.function, name@) is None,
            }),
    {
        let ghost fs = self@.function;
        let n = self.function.len();
        let mut i: usize = 0;
        proof {
            assert(fs.skip(0) =~= fs);
        }
        while i < n
            invariant
                0 <= i <= n,
                n == self.function@.len(),
                fs == self@.function,
                spec_find_spec(fs, name@) == spec_find_spec(fs.skip(i as int), name@),
            decreases n - i,
        {
            proof {
                assert(fs.skip(i as int) =~= seq![fs[i as int]] + fs.skip(i as int + 1));
                lemma_find_spec_cons(fs[i as int], fs.skip(i as int + 1), name@);
            }
            if str_eq(self.function[i].name.as_str(), name) {
                return Some(&self.function[i]);
            }
            i = i + 1;
        }
        proof {
            assert(fs.skip(n as int) =~= Seq::<FunctionSpecV>::empty());
        }
        None
    }
}

/// The override semantics: a patch description replaces the base
/// description wholesale; patch parameters merge-patch into base parameters
/// when both are present and replace them when only the patch has any; the
/// name is never taken from the patch.
pub open spec fn spec_merge_spec(base: FunctionSpecV, patch: FunctionSpecV) -> FunctionSpecV {
    FunctionSpecV {
        name: base.name,
        description: match patch.description {
            Some(d) => Some(d),
            None => base.description,
        },
        parameters: match (base.parameters, patch.parameters) {
            (Some(bp), Some(pp)) => Some(spec_merge_patch(bp, pp)),
            (None, Some(pp)) => Some(pp),
            (Some(bp), None) => Some(bp),
            (None, None) => None,
        },
    }
}

/// Overlay a configured override patch onto a provider-reported
/// specification, as [`spec_merge_spec`] describes.
pub fn merge(spec: &mut FunctionSpec, patch: &FunctionSpec)
    ensures
        final(spec)@ == spec_merge_spec(old(spec)@, patch@),
{
    if let Some(d) = &patch.description {
        spec.description = Some(d.clone());
    }
    let merged: Option<Json> = match (&spec.parameters, &patch.parameters) {
        (Some(bp), Some(pp)) => Some(merge_patch(bp, pp)),
        (None, Some(pp)) => Some(pp.clone()),
        _ => None,
    };
    if let Some(m) = merged {
        spec.parameters = Some(m);
    }
}

/// Why a provider's reported specification was rejected.
#[derive(Clone, Copy, Debug, PartialEq, Eq, Structural)]
pub enum SpecParseError {
    /// The output was not one well-formed JSON document.
    NotJson,
    /// The document was not an object.
    NotAnObject,
    /// The object carried no string under `"name"`.
    BadName,
    /// The object carried something other than a string under
    /// `"description"`.
    BadDescription,
}

/// The specification an object document describes: a string `"name"` is
/// required; `"description"` may be a string or absent; `"parameters"` may
/// be anything. An absent field and a `null` one read the same.
pub open spec fn spec_spec_of_json(j: JsonV) -> Result<FunctionSpecV, SpecParseError> {
    match j {
        JsonV::Obj(es) => {
            let name = spec_obj_get_or_null(es, "name"@);
            let desc = spec_obj_get_or_null(es, "description"@);
            let params = spec_obj_get_or_null(es, "parameters"@);
            match name {
                JsonV::Text(n) => match desc {
                    JsonV::Text(d) => Ok(
                        FunctionSpecV {
                            name: n,
                            description: Some(d),
                            parameters: match params {
                                JsonV::Null => None,
                                _ => Some(params),
                            },
                        },
                    ),
                    JsonV::Null => Ok(
                        FunctionSpecV {
                            name: n,
                            description: None,
                            parameters: match params {
                                JsonV::Null => None,
                                _ => Some(params),
                            },
                        },
                    ),
                    _ => Err(SpecParseError::BadDescription),
                },
                _ => Err(SpecParseError::BadName),
            }
        },
        _ => Err(SpecParseError::NotAnObject),
    }
}

/// The specification a provider reported, its name forced to the registry
/// key: the registry name is always authoritative over the self-report.
/// `Ok` also says whether the self-reported name had to be overwritten,
/// which callers report as a warning.
pub open spec fn spec_parse_specification(registry_name: Seq<char>, raw: Seq<char>) -> Result<
    (FunctionSpecV, bool),
    SpecParseError,
> {
    match crate::jsontext::json_of(raw) {
        None => Err(SpecParseError::NotJson),
        Some(j) => match spec_spec_of_json(j) {
            Err(e) => Err(e),
            Ok(s) => Ok(
                (
                    FunctionSpecV {
                        name: registry_name,
                        description: s.description,
                        parameters: s.parameters,
                    },
                    s.name != registry_name,
                ),
            ),
        },
    }
}

/// The merged specification a provider's raw output yields under a
/// registry: the parsed self-report, its name forced to the registry key,
/// with the matching override — if any — merge-patched on top.
pub open spec fn spec_merged_specification(
    f: FunctionsV,
    name: Seq<char>,
    raw: Seq<char>,
) -> Result<(FunctionSpecV, bool), SpecParseError> {
    match spec_parse_specification(name, raw) {
        Err(e) => Err(e),
        Ok(p) => Ok(
            (
                match spec_find_spec(f.function, name) {
                    Some(o) => spec_merge_spec(p.0, o),
                    None => p.0,
                },
                p.1,
            ),
        ),
    }
}

/// Parse the text a provider printed when asked for its specification.
pub fn parse_specification(registry_name: &str, raw: &str) -> (r: Result<
    (FunctionSpec, bool),
    SpecParseError,
>)
    ensures
        (match r {
            Ok(fr) => spec_parse_specification(registry_name@, raw@) == Ok::<
                (FunctionSpecV, bool),
                SpecParseError,
            >((fr.0@, fr.1)),
            Err(e) => spec_parse_specification(registry_name@, raw@) == Err::<
                (FunctionSpecV, bool),
                SpecParseError,
            >(e),
        }),
{
    let parsed = match crate::jsontext::parse_json(raw) {
        Some(j) => j,
        None => {
            return Err(SpecParseError::NotJson);
        },
    };
    let es = match &parsed {
        Json::Obj(es) => es,
        _ => {
            return Err(SpecParseError::NotAnObject);
        },
    };
    proof {
        crate::json::lemma_obj_view_is_entries(es@);
    }
    let name_value = crate::json::obj_get_or_null(es, "name");
    let reported_name = match name_value {
        Json::Text(n) => n,
        _ => {
            return Err(SpecParseError::BadName);
        },
    };
    let desc_value = crate::json::obj_get_or_null(es, "description");
    let description = match desc_value {
        Json::Text(d) => Some(d),
        Json::Null => None,
        _ => {
            return Err(SpecParseError::BadDescription);
        },
    };
    let params_value = crate::json::obj_get_or_null(es, "parameters");
    let parameters = match params_value {
        Json::Null => None,
        p => Some(p),
    };
    let renamed = !str_eq(reported_name.as_str(), registry_name);
    let spec = FunctionSpec {
        name: String::from_str(registry_name),
        description,
        parameters,
    };
    Ok((spec, renamed))
}

impl Functions {
    /// The merged specification for the provider under `name`, built from
    /// the raw text that provider printed: the parsed self-report, its name
    /// forced to the registry key, with the matching configured override —
    /// if there is one — merge-patched on top.
    pub fn merged_specification(&self, name: &str, raw: &str) -> (r: Result<
        (FunctionSpec, bool),
        SpecParseError,
    >)
        ensures
            (match r {
                Ok(fr) => spec_merged_specification(self@, name@, raw@) == Ok::<
                    (FunctionSpecV, bool),
                    SpecParseError,
                >((fr.0@, fr.1)),
                Err(e) => spec_merged_specification(self@, name@, raw@) == Err::<
                    (FunctionSpecV, bool),
                    SpecParseError,
                >(e),
            }),
    {
        let (mut spec, renamed) = match parse_specification(name, raw) {
            Ok(fr) => fr,
            Err(e) => {
                return Err(e);
            },
        };
        if let Some(overlay) = self.get_function(name) {
            merge(&mut spec, overlay);
        }
        Ok((spec, renamed))
    }

    /// The merged specifications of every provider, from the raw text each
    /// provider printed when asked for its specification — one raw output
    /// per provider, one result per provider, in registry order. Each
    /// success carries whether the provider's self-reported name had to be
    /// overwritten. One provider's failure is its own entry alone and
    /// leaves every other provider's entry untouched; whether a request
    /// may still be built from a partial set is the caller's decision.
    #[verifier::loop_isolation(false)]
    pub fn specifications(&self, raws: &Vec<String>) -> (r: Vec<
        Result<(FunctionSpec, bool), SpecParseError>,
    >)
        requires
            raws@.len() == self@.provider.len(),
        ensures
            r@.len() == self@.provider.len(),
            forall|i: int| #![trigger r@[i]]
                0 <= i < r@.len() ==> (match r@[i] {
                    Ok(fr) => spec_merged_specification(
                        self@,
                        self@.provider[i].name,
                        raws@[i]@,
                    ) == Ok::<(FunctionSpecV, bool), SpecParseError>((fr.0@, fr.1)),
                    Err(e) => spec_merged_specification(
                        self@,
                        self@.provider[i].name,
                        raws@[i]@,
                    ) == Err::<(FunctionSpecV, bool), SpecParseError>(e),
                }),
    {
        let n = self.provider.len();
        let mut out: Vec<Result<(FunctionSpec, bool), SpecParseError>> = Vec::new();
        let mut i: usize = 0;
        while i < n
            invariant
                0 <= i <= n,
                out@.len() == i,
                forall|k: int| #![trigger out@[k]]
                    0 <= k < i ==> (match out@[k] {
                        Ok(fr) => spec_merged_specification(
                            self@,
                            self@.provider[k].name,
                            raws@[k]@,
                        ) == Ok::<(FunctionSpecV, bool), SpecParseError>((fr.0@, fr.1)),
                        Err(e) => spec_merged_specification(
                            self@,
                            self@.provider[k].name,
                            raws@[k]@,
                        ) == Err::<(FunctionSpecV, bool), SpecParseError>(e),
                    }),
            decreases n - i,
        {
            let name = &self.provider[i].name;
            let entry = self.merged_specification(name.as_str(), raws[i].as_str());
            out.push(entry);
            i = i + 1;
        }
        out
    }

    /// The approval-gate decision for a requested call. An unregistered
    /// name is never executed; a safe provider's command may run at once,
    /// with no prompt; any other provider's command must first obtain
    /// interactive consent.
    pub fn plan_call(&self, name: &str) -> (p: CallPlan)
        ensures
            (match spec_find_provider(self@.provider, name@) {
                None => p == CallPlan::NotFound,
                Some(pr) => p == (if pr.safe {
                    CallPlan::Execute
                } else {
                    CallPlan::NeedsApproval
                }),
            }),
    {
        match self.get_provider(name) {
            None => CallPlan::NotFound,
            Some(provider) => {
                if provider.safe {
                    CallPlan::Execute
                } else {
                    CallPlan::NeedsApproval
                }
            },
        }
    }
}

/// What the approval gate decides for one requested call.
#[derive(Clone, Copy, Debug, PartialEq, Eq, Structural)]
pub enum CallPlan {
    /// No provider carries the requested name: nothing may run.
    NotFound,
    /// The provider is safe: its command may run without a prompt.
    Execute,
    /// The provider is not safe: interactive consent must come first.
    NeedsApproval,
}

/// The outcome of one approval-gated provider call.
#[derive(Debug)]
pub enum FunctionResponse {
    /// The command ran; this is its combined output, whatever its exit
    /// status.
    Executed(String),
    /// The user denied execution; no process was launched.
    Aborted,
    /// The requested name is not registered.
    NotFound,
}

/// The mathematical shape of a [`FunctionResponse`].
pub ghost enum FunctionResponseV {
    Executed(Seq<char>),
    Aborted,
    NotFound,
}

impl View for FunctionResponse {
    type V = FunctionResponseV;

    open spec fn view(&self) -> FunctionResponseV {
        match self {
            FunctionResponse::Executed(output) => FunctionResponseV::Executed(output@),
            FunctionResponse::Aborted => FunctionResponseV::Aborted,
            FunctionResponse::NotFound => FunctionResponseV::NotFound,
        }
    }
}

/// The text a [`FunctionResponse`] denotes.
pub open spec fn spec_response_text(r: FunctionResponseV) -> Seq<char> {
    match r {
        FunctionResponseV::Executed(output) => crate::jsontext::spec_normalize(output),
        FunctionResponseV::Aborted => "function call aborted: user denied command execution"@,
        FunctionResponseV::NotFound => "function not found: the requested function is currently unavailable or not implemented yet"@,
    }
}

/// The outcome of one approval-gated call, from the plan, the consent
/// answer, and the captured output. The output is present exactly when the
/// command ran: at once for a safe provider's plan, and only on consent
/// for any other; an unregistered name never runs, and a denial aborts
/// without a launch.
pub fn call_outcome(plan: CallPlan, approved: bool, output: Option<String>) -> (r:
    FunctionResponse)
    requires
        (output is Some) == (plan is Execute || (plan is NeedsApproval && approved)),
    ensures
        (match plan {
            CallPlan::NotFound => r@ == FunctionResponseV::NotFound,
            CallPlan::Execute => r@ == FunctionResponseV::Executed(output->0@),
            CallPlan::NeedsApproval => r@ == (if approved {
                FunctionResponseV::Executed(output->0@)
            } else {
                FunctionResponseV::Aborted
            }),
        }),
{
    match plan {
        CallPlan::NotFound => FunctionResponse::NotFound,
        CallPlan::Execute => match output {
            Some(text) => FunctionResponse::Executed(text),
            None => {
                proof {
                    assert(false);
                }
                FunctionResponse::Aborted
            },
        },
        CallPlan::NeedsApproval => {
            if approved {
                match output {
                    Some(text) => FunctionResponse::Executed(text),
                    None => {
                        proof {
                            assert(false);
                        }
                        FunctionResponse::Aborted
                    },
                }
            } else {
                FunctionResponse::Aborted
            }
        },
    }
}

impl FunctionResponse {
    /// The text handed back to the model as the function's result:
    /// compacted command output, or a fixed sentence explaining the denial
    /// or the unknown name.
    pub fn response_text(&self) -> (r: String)
        ensures
            r@ == spec_response_text(self@),
    {
        match self {
            FunctionResponse::Executed(output) => crate::jsontext::try_compact_json(
                output.as_str(),
            ),
            FunctionResponse::Aborted => String::from_str(
                "function call aborted: user denied command execution",
            ),
            FunctionResponse::NotFound => String::from_str(
                "function not found: the requested function is currently unavailable or not implemented yet",
            ),
        }
    }
}

} // verus!
