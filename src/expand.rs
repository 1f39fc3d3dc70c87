//! The expansion of an `impl Config for ...` block: the explicit members are
//! kept, and one delegation statement per requested option is appended.

use vstd::prelude::*;
use crate::options::{
    classified_as, classifies_as, classify, fits, ident_text, settled, is_first_error, option_names, parse_options, payload_wf, AttrToken,
    ParseError, RawToken,
};
use crate::path::{
    construct_path_to_macro, contract_ident, delegate_of, name_text, names_contract, NameModel,
    QualifiedName,
};

verus! {

/// A parsed implementation block. The parts that the expansion only moves
/// (decorations, generic parameters, the target type, each explicit member)
/// are of a type `T` that it never looks into.
pub struct ImplBlock<T> {
    pub attrs: T,
    pub generics: T,
    pub trait_ref: Option<QualifiedName>,
    pub self_ty: T,
    pub items: Vec<T>,
}

/// A request, made through `path`, that the default-supplying facility
/// supply the default implementation of `option`.
pub struct Delegation {
    pub path: QualifiedName,
    pub option: String,
}

/// A delegation statement as the name it goes through and the option it names.
pub type DelegationModel = (NameModel, Seq<char>);

impl View for Delegation {
    type V = DelegationModel;

    open spec fn view(&self) -> DelegationModel {
        (self.path@, self.option@)
    }
}

/// The rewritten block: the same decorations, generic parameters, contract
/// and target type, the explicit members, then the delegation statements.
pub struct ExpandedBlock<T> {
    pub attrs: T,
    pub generics: T,
    pub config_trait: QualifiedName,
    pub self_ty: T,
    pub items: Vec<T>,
    pub default_items: Vec<Delegation>,
}

/// Why a block could not be expanded.
#[derive(PartialEq, Eq, Structural, Clone, Copy, Debug)]
pub enum ExpandError {
    /// The block implements no trait, or one whose final segment is not `Config`.
    NotConfig,
    /// The attribute payload is not a comma-separated list of identifiers.
    Payload(ParseError),
}

/// One member of a rewritten block.
pub enum Member<T> {
    Explicit(T),
    Delegated(DelegationModel),
}

/// The contract reference is present and its final segment reads `Config`.
pub open spec fn is_config_ref(r: Option<QualifiedName>) -> bool {
    r matches Some(p) && names_contract(p@)
}

/// The delegation statements for the options `names` of the contract `config`.
pub open spec fn delegations_for(config: NameModel, names: Seq<Seq<char>>) -> Seq<DelegationModel> {
    names.map_values(|o: Seq<char>| (delegate_of(config), o))
}

/// The member list of a rewritten block, explicit members first.
pub open spec fn members<T>(e: ExpandedBlock<T>) -> Seq<Member<T>> {
    e.items@.map_values(|t: T| Member::Explicit(t)) + e.default_items@.map_values(
        |d: Delegation| Member::Delegated(d@),
    )
}

/// What expanding `block` with the payload `toks` gives: the contract is
/// checked first, then the payload; on success everything but the appended
/// delegation statements is taken over unchanged.
pub open spec fn expands_to<T>(
    toks: Seq<AttrToken>,
    block: ImplBlock<T>,
    r: Result<ExpandedBlock<T>, ExpandError>,
) -> bool {
    if !is_config_ref(block.trait_ref) {
        r == Err::<ExpandedBlock<T>, ExpandError>(ExpandError::NotConfig)
    } else if !payload_wf(toks) {
        r matches Err(ExpandError::Payload(e)) && is_first_error(toks, e)
    } else {
        &&& r is Ok
        &&& r->Ok_0.attrs == block.attrs
        &&& r->Ok_0.generics == block.generics
        &&& r->Ok_0.self_ty == block.self_ty
        &&& r->Ok_0.config_trait@ == block.trait_ref->Some_0@
        &&& r->Ok_0.items@ == block.items@
        &&& r->Ok_0.default_items@.len() == option_names(toks).len()
        &&& r->Ok_0.default_items@.map_values(|d: Delegation| d@) == delegations_for(
            block.trait_ref->Some_0@,
            option_names(toks),
        )
    }
}

/// Checks that the block implements a `Config` trait and returns its name.
pub fn extract_config_trait(trait_ref: Option<QualifiedName>) -> (r: Result<
    QualifiedName,
    ExpandError,
>)
    ensures
        is_config_ref(trait_ref) ==> (r matches Ok(p) && p@ == trait_ref->Some_0@),
        !is_config_ref(trait_ref) ==> r == Err::<QualifiedName, ExpandError>(
            ExpandError::NotConfig,
        ),
{
    match trait_ref {
        None => Err(ExpandError::NotConfig),
        Some(p) => {
            if p.is_contract() {
                Ok(p)
            } else {
                Err(ExpandError::NotConfig)
            }
        },
    }
}

/// Expands `block` with the options listed in the payload `attr`, given as
/// raw tokens: whatever the classification of each word, the result is the
/// expansion with some classification of the payload.
pub fn use_default_config_for<T>(attr: &Vec<RawToken>, block: ImplBlock<T>) -> (r: Result<
    ExpandedBlock<T>,
    ExpandError,
>)
    ensures
        exists|toks: Seq<AttrToken>| classified_as(attr@, toks) && expands_to(toks, block, r),
{
    let toks = classify(attr);
    let r = expand_with_options(&toks, block);
    assert(classified_as(attr@, toks@) && expands_to(toks@, block, r));
    r
}

/// Expands `block` with the options listed in the classified payload `attr`.
pub fn expand_with_options<T>(attr: &Vec<AttrToken>, block: ImplBlock<T>) -> (r: Result<
    ExpandedBlock<T>,
    ExpandError,
>)
    ensures
        expands_to(attr@, block, r),
{
    let ghost old_block = block;
    let ImplBlock { attrs, generics, trait_ref, self_ty, items } = block;
    let config_trait = match extract_config_trait(trait_ref) {
        Ok(p) => p,
        Err(e) => {
            return Err(e);
        },
    };
    let config_opts = match parse_options(attr) {
        Ok(v) => v,
        Err(e) => {
            return Err(ExpandError::Payload(e));
        },
    };
    let n = config_opts.len();
    let mut default_items: Vec<Delegation> = Vec::new();
    let mut i: usize = 0;
    while i < n
        invariant
            n == config_opts@.len(),
            i <= n,
            names_contract(config_trait@),
            default_items@.len() == i,
            forall|k: int|
                0 <= k < i ==> #[trigger] default_items@[k]@ == (
                    delegate_of(config_trait@),
                    config_opts@[k]@,
                ),
        decreases n - i,
    {
        let path = construct_path_to_macro(&config_trait);
        default_items.push(Delegation { path, option: config_opts[i].clone() });
        i = i + 1;
    }
    let r = ExpandedBlock { attrs, generics, config_trait, self_ty, items, default_items };
    assert(r.default_items@.map_values(|d: Delegation| d@) =~= delegations_for(
        old_block.trait_ref->Some_0@,
        option_names(attr@),
    ));
    Ok(r)
}

impl Delegation {
    /// The statement as written:
    /// `<path>::use_default_config_for!(<option>);`.
    pub fn to_text(&self) -> (r: String)
        ensures
            r@ == delegation_text(self@),
    {
        let mut text = self.path.to_text();
        text.append("::use_default_config_for!(");
        text.append(self.option.as_str());
        text.append(");");
        text
    }
}

/// A delegation statement as written.
pub open spec fn delegation_text(d: DelegationModel) -> Seq<char> {
    name_text(d.0) + "::use_default_config_for!("@ + d.1 + ");"@
}

/// Two outcomes of an expansion agree: the same error, or rewritten blocks
/// with the same parts.
pub open spec fn same_outcome<T>(
    r1: Result<ExpandedBlock<T>, ExpandError>,
    r2: Result<ExpandedBlock<T>, ExpandError>,
) -> bool {
    match (r1, r2) {
        (Ok(a), Ok(b)) => {
            &&& a.attrs == b.attrs
            &&& a.generics == b.generics
            &&& a.self_ty == b.self_ty
            &&& a.config_trait@ == b.config_trait@
            &&& a.items@ == b.items@
            &&& a.default_items@.map_values(|d: Delegation| d@) == b.default_items@.map_values(
                |d: Delegation| d@,
            )
        },
        (Err(x), Err(y)) => x == y,
        _ => false,
    }
}

/// A block that implements a `Config` trait, with a well-formed payload,
/// always expands, and its members are the explicit ones in their order
/// followed by one delegation statement per requested option, in the order
/// requested.
pub proof fn lemma_config_block_expands<T>(
    toks: Seq<AttrToken>,
    block: ImplBlock<T>,
    r: Result<ExpandedBlock<T>, ExpandError>,
)
    requires
        is_config_ref(block.trait_ref),
        payload_wf(toks),
        expands_to(toks, block, r),
    ensures
        r is Ok,
        members(r->Ok_0) == block.items@.map_values(|t: T| Member::Explicit(t))
            + delegations_for(block.trait_ref->Some_0@, option_names(toks)).map_values(
            |d: DelegationModel| Member::<T>::Delegated(d),
        ),
        members(r->Ok_0).len() == block.items@.len() + option_names(toks).len(),
{
    let out = r->Ok_0;
    let ds = out.default_items@.map_values(|d: Delegation| d@);
    assert(out.default_items@.map_values(|d: Delegation| Member::<T>::Delegated(d@))
        =~= ds.map_values(|d: DelegationModel| Member::<T>::Delegated(d)));
}

/// An inherent impl block (one that names no trait) is never expanded.
pub proof fn lemma_inherent_impl_rejected<T>(
    toks: Seq<AttrToken>,
    block: ImplBlock<T>,
    r: Result<ExpandedBlock<T>, ExpandError>,
)
    requires
        block.trait_ref is None,
        expands_to(toks, block, r),
    ensures
        r == Err::<ExpandedBlock<T>, ExpandError>(ExpandError::NotConfig),
{
}

/// A block whose trait's final segment is not `Config` is never expanded,
/// whatever the payload.
pub proof fn lemma_other_trait_rejected<T>(
    toks: Seq<AttrToken>,
    block: ImplBlock<T>,
    r: Result<ExpandedBlock<T>, ExpandError>,
)
    requires
        block.trait_ref is Some,
        block.trait_ref->Some_0@.1.len() > 0,
        block.trait_ref->Some_0@.1.last().0 != contract_ident(),
        expands_to(toks, block, r),
    ensures
        r == Err::<ExpandedBlock<T>, ExpandError>(ExpandError::NotConfig),
{
}

/// A `Config` block with a payload that is not a list of identifiers (a
/// literal, a keyword, a doubled or missing comma) fails with a payload
/// error and gives no rewritten block.
pub proof fn lemma_malformed_payload_rejected<T>(
    toks: Seq<AttrToken>,
    block: ImplBlock<T>,
    r: Result<ExpandedBlock<T>, ExpandError>,
)
    requires
        is_config_ref(block.trait_ref),
        !payload_wf(toks),
        expands_to(toks, block, r),
    ensures
        r matches Err(ExpandError::Payload(_)),
{
}

/// Expanding the same block with the same payload twice gives the same outcome.
pub proof fn lemma_expansion_deterministic<T>(
    toks: Seq<AttrToken>,
    block: ImplBlock<T>,
    r1: Result<ExpandedBlock<T>, ExpandError>,
    r2: Result<ExpandedBlock<T>, ExpandError>,
)
    requires
        expands_to(toks, block, r1),
        expands_to(toks, block, r2),
    ensures
        same_outcome(r1, r2),
{
    if is_config_ref(block.trait_ref) && !payload_wf(toks) {
        let e1 = r1->Err_0->Payload_0;
        let e2 = r2->Err_0->Payload_0;
        if e1.at < e2.at {
            assert(fits(toks[e1.at as int], e1.at as int));
        } else if e2.at < e1.at {
            assert(fits(toks[e2.at as int], e2.at as int));
        }
    }
}

/// Expanding the same block with the same raw payload twice gives the same
/// outcome, where every word of the payload is bracketed, reserved or an
/// ASCII identifier.
pub proof fn lemma_raw_expansion_deterministic<T>(
    raw: Seq<RawToken>,
    block: ImplBlock<T>,
    r1: Result<ExpandedBlock<T>, ExpandError>,
    r2: Result<ExpandedBlock<T>, ExpandError>,
)
    requires
        forall|i: int| 0 <= i < raw.len() ==> settled(#[trigger] raw[i]),
        exists|toks: Seq<AttrToken>| classified_as(raw, toks) && expands_to(toks, block, r1),
        exists|toks: Seq<AttrToken>| classified_as(raw, toks) && expands_to(toks, block, r2),
    ensures
        same_outcome(r1, r2),
{
    let t1 = choose|toks: Seq<AttrToken>| classified_as(raw, toks) && expands_to(toks, block, r1);
    let t2 = choose|toks: Seq<AttrToken>| classified_as(raw, toks) && expands_to(toks, block, r2);
    assert forall|i: int| 0 <= i < raw.len() implies fits(t1[i], i) == fits(t2[i], i)
        && ident_text(t1[i]) == ident_text(t2[i]) by {
        assert(settled(raw[i]));
        assert(classifies_as(raw[i], t1[i]));
        assert(classifies_as(raw[i], t2[i]));
    }
    assert(payload_wf(t1) == payload_wf(t2));
    assert(option_names(t1) =~= option_names(t2));
    if is_config_ref(block.trait_ref) && !payload_wf(t1) {
        let e1 = r1->Err_0->Payload_0;
        let e2 = r2->Err_0->Payload_0;
        if e1.at < e2.at {
            assert(fits(t2[e1.at as int], e1.at as int));
        } else if e2.at < e1.at {
            assert(fits(t1[e2.at as int], e2.at as int));
        }
    }
}

} // verus!
