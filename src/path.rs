//! Qualified names (`a::b::Config`) and the sibling name under which the
//! default-supplying facility is reached.

use vstd::prelude::*;

verus! {

/// One segment of a qualified name: its identifier, and the text of its
/// generic arguments (empty when the segment carries none).
pub struct Segment {
    pub ident: String,
    pub arguments: String,
}

/// A possibly namespaced name, from the outermost namespace to the leaf.
pub struct QualifiedName {
    pub leading_colon: bool,
    pub segments: Vec<Segment>,
}

/// A segment as a pair of character sequences: identifier, generic arguments.
pub type SegmentModel = (Seq<char>, Seq<char>);

/// A qualified name as its leading `::` flag and its segments.
pub type NameModel = (bool, Seq<SegmentModel>);

impl View for Segment {
    type V = SegmentModel;

    open spec fn view(&self) -> SegmentModel {
        (self.ident@, self.arguments@)
    }
}

impl View for QualifiedName {
    type V = NameModel;

    open spec fn view(&self) -> NameModel {
        (self.leading_colon, self.segments@.map_values(|s: Segment| s@))
    }
}

/// The identifier that a contract's final segment must read.
pub open spec fn contract_ident() -> Seq<char> {
    seq!['C', 'o', 'n', 'f', 'i', 'g']
}

/// The reserved identifier of the default-supplying facility.
pub open spec fn provider_ident() -> Seq<char> {
    seq![
        '_', '_', 's', 'u', 'b', 's', 't', 'r', 'a', 't', 'e', '_', 'c', 'o', 'n', 'f', 'i', 'g',
        '_', 'd', 'e', 'f', 'a', 'u', 'l', 't', 's',
    ]
}

/// A name is well formed when it has at least one segment.
pub open spec fn name_wf(n: NameModel) -> bool {
    n.1.len() > 0
}

/// The name's final segment reads `Config`, whatever its namespace and
/// generic arguments.
pub open spec fn names_contract(n: NameModel) -> bool {
    n.1.len() > 0 && n.1.last().0 == contract_ident()
}

/// The name of the default-supplying facility that sits beside the contract
/// named `n`: every segment but the last, then the reserved identifier
/// without generic arguments.
pub open spec fn delegate_of(n: NameModel) -> NameModel {
    (n.0, n.1.drop_last().push((provider_ident(), Seq::<char>::empty())))
}

/// The path separator `::`.
pub open spec fn separator() -> Seq<char> {
    seq![':', ':']
}

/// A segment as written: its identifier followed by its generic arguments.
pub open spec fn segment_text(s: SegmentModel) -> Seq<char> {
    s.0 + s.1
}

/// Segments as written, joined by `::`.
pub open spec fn segments_text(segs: Seq<SegmentModel>) -> Seq<char>
    decreases segs.len(),
{
    if segs.len() == 0 {
        Seq::empty()
    } else if segs.len() == 1 {
        segment_text(segs[0])
    } else {
        segments_text(segs.drop_last()) + separator() + segment_text(segs.last())
    }
}

/// A qualified name as written.
pub open spec fn name_text(n: NameModel) -> Seq<char> {
    if n.0 {
        separator() + segments_text(n.1)
    } else {
        segments_text(n.1)
    }
}

/// The identifier `Config`.
pub fn contract_ident_string() -> (r: String)
    ensures
        r@ == contract_ident(),
{
    proof {
        reveal_strlit("Config");
    }
    String::from_str("Config")
}

/// The identifier `__substrate_config_defaults`.
pub fn provider_ident_string() -> (r: String)
    ensures
        r@ == provider_ident(),
{
    proof {
        reveal_strlit("__substrate_config_defaults");
    }
    String::from_str("__substrate_config_defaults")
}

impl Segment {
    /// A segment with the same identifier and generic arguments.
    pub fn copy(&self) -> (r: Segment)
        ensures
            r@ == self@,
    {
        Segment { ident: self.ident.clone(), arguments: self.arguments.clone() }
    }
}

impl QualifiedName {
    /// Whether the final segment reads `Config`.
    pub fn is_contract(&self) -> (r: bool)
        ensures
            r == names_contract(self@),
    {
        let n = self.segments.len();
        if n == 0 {
            false
        } else {
            let want = contract_ident_string();
            self.segments[n - 1].ident == want
        }
    }
}

impl QualifiedName {
    /// The name as written, e.g. `a::b::Config<T>`.
    pub fn to_text(&self) -> (r: String)
        ensures
            r@ == name_text(self@),
    {
        proof {
            reveal_strlit("::");
            assert("::"@ =~= separator());
        }
        let ghost segs = self@.1;
        let ghost prefix = if self.leading_colon {
            separator()
        } else {
            Seq::<char>::empty()
        };
        let mut text = String::new();
        if self.leading_colon {
            text.append("::");
        }
        let n = self.segments.len();
        let mut i: usize = 0;
        while i < n
            invariant
                n == segs.len(),
                segs == self@.1,
                "::"@ == separator(),
                i <= n,
                text@ == prefix + segments_text(segs.take(i as int)),
            decreases n - i,
        {
            proof {
                assert(segs.take(i + 1).drop_last() =~= segs.take(i as int));
                assert(segs.take(i + 1).last() == segs[i as int]);
                if i == 0 {
                    assert(segments_text(segs.take(0)) =~= Seq::<char>::empty());
                }
            }
            let ghost before = text@;
            if i > 0 {
                text.append("::");
            }
            let seg = &self.segments[i];
            text.append(seg.ident.as_str());
            text.append(seg.arguments.as_str());
            proof {
                if i == 0 {
                    assert(text@ =~= prefix + segments_text(segs.take(1)));
                } else {
                    assert(segments_text(segs.take(i + 1)) == segments_text(segs.take(i as int))
                        + separator() + segment_text(segs[i as int]));
                    assert(segs[i as int] == self.segments@[i as int]@);
                    assert(text@ =~= before + separator() + segment_text(segs[i as int]));
                    assert(text@ =~= prefix + segments_text(segs.take(i + 1)));
                }
            }
            i = i + 1;
        }
        assert(segs.take(n as int) =~= segs);
        if !self.leading_colon {
            assert(text@ =~= name_text(self@));
        }
        text
    }
}

/// The name under which the default-supplying facility of `config_trait` is
/// reached: the same namespace, with the final segment replaced by the
/// reserved identifier.
pub fn construct_path_to_macro(config_trait: &QualifiedName) -> (r: QualifiedName)
    requires
        name_wf(config_trait@),
    ensures
        r@ == delegate_of(config_trait@),
{
    let n = config_trait.segments.len();
    let mut segments: Vec<Segment> = Vec::new();
    let mut i: usize = 0;
    while i < n - 1
        invariant
            n == config_trait.segments@.len(),
            n > 0,
            i <= n - 1,
            segments@.len() == i,
            forall|k: int| 0 <= k < i ==> segments@[k]@ == config_trait.segments@[k]@,
        decreases n - 1 - i,
    {
        segments.push(config_trait.segments[i].copy());
        i = i + 1;
    }
    segments.push(Segment { ident: provider_ident_string(), arguments: String::new() });
    let r = QualifiedName { leading_colon: config_trait.leading_colon, segments };
    assert(r@.1 =~= delegate_of(config_trait@).1);
    r
}

/// The delegate name keeps the contract's namespace, segment for segment and
/// in order, and ends in the reserved identifier without generic arguments;
/// a contract named without a namespace gives the reserved identifier alone.
pub proof fn lemma_delegate_keeps_namespace(n: NameModel)
    requires
        name_wf(n),
    ensures
        delegate_of(n).0 == n.0,
        delegate_of(n).1.len() == n.1.len(),
        forall|k: int| 0 <= k < n.1.len() - 1 ==> #[trigger] delegate_of(n).1[k] == n.1[k],
        delegate_of(n).1.last() == (provider_ident(), Seq::<char>::empty()),
        n.1.len() == 1 ==> delegate_of(n).1 == seq![(provider_ident(), Seq::<char>::empty())],
{
    if n.1.len() == 1 {
        assert(delegate_of(n).1 =~= seq![(provider_ident(), Seq::<char>::empty())]);
    }
}

} // verus!
