//! The text rules of the SmartPlant `.pid` import: which symbol name a
//! placement is labelled with, and whether a symbol's own text run is worth
//! drawing.
use vstd::prelude::*;
use vstd::string::*;
use crate::text::{
    char_is_alphanumeric, chars_of, is_alphanumeric, is_white_space, lemma_trim, trim, trim_bounds,
};

verus! {

/// A separator between the components of a symbol library path: UNC paths use
/// `\`, local copies `/`.
pub open spec fn is_path_separator(c: char) -> bool {
    c == '\\' || c == '/'
}

/// Where the last component of `path` starts: just past its last separator, or
/// at 0 when it has none.
pub open spec fn leaf_start(path: Seq<char>) -> int
    decreases path.len(),
{
    if path.len() == 0 {
        0
    } else if is_path_separator(path.last()) {
        path.len() as int
    } else {
        leaf_start(path.drop_last())
    }
}

/// The last component of `path`, the `.sym` file a placement names.
pub open spec fn leaf(path: Seq<char>) -> Seq<char> {
    path.skip(leaf_start(path))
}

/// Whether `file` ends in `.sym`, compared without regard to ASCII case.
pub open spec fn has_sym_extension(file: Seq<char>) -> bool {
    let n = file.len() as int;
    &&& n >= 4
    &&& file[n - 4] == '.'
    &&& (file[n - 3] == 's' || file[n - 3] == 'S')
    &&& (file[n - 2] == 'y' || file[n - 2] == 'Y')
    &&& (file[n - 1] == 'm' || file[n - 1] == 'M')
}

/// `file` with a trailing `.sym` taken off, when it has one.
pub open spec fn without_sym_extension(file: Seq<char>) -> Seq<char> {
    if has_sym_extension(file) {
        file.take(file.len() - 4)
    } else {
        file
    }
}

/// The name a symbol placement is labelled with: the trimmed stem of the last
/// path component, or none when that stem is empty.
pub open spec fn spec_symbol_name(path: Seq<char>) -> Option<Seq<char>> {
    let stem = trim(without_sym_extension(trim(leaf(path))));
    if stem.len() == 0 {
        None
    } else {
        Some(stem)
    }
}

/// The placeholder a symbol's template text reads where the drawing is
/// expected to supply the value.
pub open spec fn placeholder() -> Seq<char> {
    seq!['N', 'U', 'L', 'L']
}

/// `text` with every placeholder removed, taking matches from the left without
/// overlap, as `str::replace` with an empty replacement does.
pub open spec fn without_placeholders(text: Seq<char>) -> Seq<char>
    decreases text.len(),
{
    if text.len() >= 4 && text.take(4) == placeholder() {
        without_placeholders(text.skip(4))
    } else if text.len() == 0 {
        text
    } else {
        seq![text[0]] + without_placeholders(text.skip(1))
    }
}

/// Whether some character of `s` is alphanumeric.
pub open spec fn has_alphanumeric(s: Seq<char>) -> bool {
    exists|i: int| 0 <= i < s.len() && #[trigger] is_alphanumeric(s[i])
}

/// Whether a symbol's text run still says something once its unfilled
/// template fields are discounted.
pub open spec fn spec_carries_a_label(text: Seq<char>) -> bool {
    has_alphanumeric(without_placeholders(text))
}

proof fn lemma_leaf_start(path: Seq<char>, k: int)
    requires
        0 <= k <= path.len(),
        k == 0 || is_path_separator(path[k - 1]),
        forall|j: int| k <= j < path.len() ==> !is_path_separator(#[trigger] path[j]),
    ensures
        leaf_start(path) == k,
    decreases path.len(),
{
    if path.len() > k {
        lemma_leaf_start(path.drop_last(), k);
    }
}

/// The symbol's name, which is the file name of the `.sym` it is placed from:
/// the last component of `path` (split at `\` or `/`), trimmed, without a
/// `.sym` extension in any ASCII case, trimmed again; none when nothing is left.
pub fn symbol_name(path: &str) -> (r: Option<String>)
    ensures
        r matches Some(name) ==> spec_symbol_name(path@) == Some(name@),
        r is None ==> spec_symbol_name(path@) is None,
{
    let chars = chars_of(path);
    let n = chars.len();
    let mut start = n;
    while start > 0 && !(chars[start - 1] == '\\' || chars[start - 1] == '/')
        invariant
            start <= n == chars@.len(),
            forall|j: int| start <= j < n ==> !is_path_separator(#[trigger] chars@[j]),
        decreases start,
    {
        start = start - 1;
    }
    proof {
        lemma_leaf_start(chars@, start as int);
        assert(leaf(chars@) =~= chars@.subrange(start as int, n as int));
    }
    let (a, b) = trim_bounds(&chars, start, n);
    let ghost file = chars@.subrange(a as int, b as int);
    let e = if b - a >= 4 && chars[b - 4] == '.' && (chars[b - 3] == 's' || chars[b - 3] == 'S')
        && (chars[b - 2] == 'y' || chars[b - 2] == 'Y') && (chars[b - 1] == 'm' || chars[b
        - 1] == 'M') {
        b - 4
    } else {
        b
    };
    assert(without_sym_extension(file) =~= chars@.subrange(a as int, e as int));
    let (c, d) = trim_bounds(&chars, a, e);
    if c == d {
        None
    } else {
        let stem = path.substring_char(c, d);
        Some(String::from_str(stem))
    }
}

/// Whether `text` is nothing but white space, in which case the import draws
/// no text entity for it.
pub fn is_blank(text: &str) -> (r: bool)
    ensures
        r == (trim(text@).len() == 0),
{
    let chars = chars_of(text);
    let (a, b) = trim_bounds(&chars, 0, chars.len());
    assert(chars@.subrange(0, chars@.len() as int) =~= chars@);
    a == b
}

proof fn lemma_skip_skip(s: Seq<char>, i: int, k: int)
    requires
        0 <= i,
        0 <= k,
        i + k <= s.len(),
    ensures
        s.skip(i).skip(k) =~= s.skip(i + k),
{
}

/// Whether a symbol's own text run says anything once its unfilled template
/// fields are discounted: some character is alphanumeric after every `NULL`
/// placeholder is removed.
pub fn carries_a_label(text: &str) -> (r: bool)
    ensures
        r == spec_carries_a_label(text@),
{
    let chars = chars_of(text);
    let n = chars.len();
    let mut i: usize = 0;
    assert(chars@.skip(0) =~= chars@);
    while i < n
        invariant
            i <= n == chars@.len(),
            chars@ == text@,
            spec_carries_a_label(text@) == spec_carries_a_label(chars@.skip(i as int)),
        decreases n - i,
    {
        let ghost rest = chars@.skip(i as int);
        if n - i >= 4 && chars[i] == 'N' && chars[i + 1] == 'U' && chars[i + 2] == 'L' && chars[i
            + 3] == 'L' {
            assert(rest.take(4) =~= placeholder());
            proof {
                lemma_skip_skip(chars@, i as int, 4);
            }
            i = i + 4;
        } else {
            let c = chars[i];
            assert(rest.len() >= 4 ==> rest.take(4) != placeholder()) by {
                if rest.len() >= 4 && rest.take(4) == placeholder() {
                    assert(rest.take(4)[0] == 'N');
                    assert(rest.take(4)[1] == 'U');
                    assert(rest.take(4)[2] == 'L');
                    assert(rest.take(4)[3] == 'L');
                }
            }
            proof {
                lemma_skip_skip(chars@, i as int, 1);
            }
            let ghost tail = without_placeholders(chars@.skip(i + 1));
            assert(without_placeholders(rest) == seq![c] + tail);
            if char_is_alphanumeric(c) {
                assert((seq![c] + tail)[0] == c);
                return true;
            }
            assert(has_alphanumeric(seq![c] + tail) == has_alphanumeric(tail)) by {
                if has_alphanumeric(seq![c] + tail) {
                    let j = choose|j: int|
                        0 <= j < (seq![c] + tail).len() && #[trigger] is_alphanumeric(
                            (seq![c] + tail)[j],
                        );
                    assert((seq![c] + tail)[j] == tail[j - 1]);
                }
                if has_alphanumeric(tail) {
                    let j = choose|j: int| 0 <= j < tail.len() && #[trigger] is_alphanumeric(tail[j]);
                    assert((seq![c] + tail)[j + 1] == tail[j]);
                }
            }
            i = i + 1;
        }
    }
    assert(chars@.skip(n as int).len() == 0);
    assert(without_placeholders(chars@.skip(n as int)).len() == 0);
    false
}

/// The layers the import draws on. Evidence about the drawing, rather than the
/// drawing itself, goes on layers that open switched off.
#[derive(Clone, Copy, Debug, PartialEq, Eq, Structural)]
pub enum PidLayer {
    Geometry,
    Text,
    Symbol,
    SymbolLabel,
    Point,
    Annotation,
    Connectivity,
    Unresolved,
}

/// The colour a layer is created with, one per kind so that the kinds are told
/// apart at a glance.
#[derive(Clone, Copy, Debug, PartialEq, Eq, Structural)]
pub enum LayerColour {
    White,
    Green,
    Cyan,
    Gray,
    Magenta,
    Yellow,
    Blue,
    Red,
}

/// The name of a layer in the imported document.
pub open spec fn spec_layer_name(layer: PidLayer) -> Seq<char> {
    match layer {
        PidLayer::Geometry => "PID-GEOMETRY"@,
        PidLayer::Text => "PID-TEXT"@,
        PidLayer::Symbol => "PID-SYMBOL"@,
        PidLayer::SymbolLabel => "PID-SYMBOL-LABEL"@,
        PidLayer::Point => "PID-POINT"@,
        PidLayer::Annotation => "PID-ANNOTATION"@,
        PidLayer::Connectivity => "PID-CONNECTIVITY"@,
        PidLayer::Unresolved => "PID-UNRESOLVED"@,
    }
}

/// The colour a layer is created with.
pub open spec fn spec_layer_colour(layer: PidLayer) -> LayerColour {
    match layer {
        PidLayer::Geometry => LayerColour::White,
        PidLayer::Text => LayerColour::Green,
        PidLayer::Symbol => LayerColour::Cyan,
        PidLayer::SymbolLabel => LayerColour::Gray,
        PidLayer::Point => LayerColour::Magenta,
        PidLayer::Annotation => LayerColour::Yellow,
        PidLayer::Connectivity => LayerColour::Blue,
        PidLayer::Unresolved => LayerColour::Red,
    }
}

/// Whether a layer opens switched on: the drawing's own line work, lettering,
/// symbols and points do; symbol labels, inferred annotations and
/// connectivity, and unresolved unit lines ship switched off.
pub open spec fn spec_layer_visible(layer: PidLayer) -> bool {
    match layer {
        PidLayer::Geometry | PidLayer::Text | PidLayer::Symbol | PidLayer::Point => true,
        _ => false,
    }
}

impl PidLayer {
    /// Every layer the import declares, in the order it declares them.
    pub const ALL: [PidLayer; 8] = [
        PidLayer::Geometry,
        PidLayer::Text,
        PidLayer::Symbol,
        PidLayer::SymbolLabel,
        PidLayer::Point,
        PidLayer::Annotation,
        PidLayer::Connectivity,
        PidLayer::Unresolved,
    ];

    /// The layer's name in the imported document.
    pub fn name(self) -> (r: &'static str)
        ensures
            r@ == spec_layer_name(self),
    {
        match self {
            PidLayer::Geometry => "PID-GEOMETRY",
            PidLayer::Text => "PID-TEXT",
            PidLayer::Symbol => "PID-SYMBOL",
            PidLayer::SymbolLabel => "PID-SYMBOL-LABEL",
            PidLayer::Point => "PID-POINT",
            PidLayer::Annotation => "PID-ANNOTATION",
            PidLayer::Connectivity => "PID-CONNECTIVITY",
            PidLayer::Unresolved => "PID-UNRESOLVED",
        }
    }

    /// The colour the layer is created with.
    pub fn colour(self) -> (r: LayerColour)
        ensures
            r == spec_layer_colour(self),
    {
        match self {
            PidLayer::Geometry => LayerColour::White,
            PidLayer::Text => LayerColour::Green,
            PidLayer::Symbol => LayerColour::Cyan,
            PidLayer::SymbolLabel => LayerColour::Gray,
            PidLayer::Point => LayerColour::Magenta,
            PidLayer::Annotation => LayerColour::Yellow,
            PidLayer::Connectivity => LayerColour::Blue,
            PidLayer::Unresolved => LayerColour::Red,
        }
    }

    /// Whether the layer opens switched on.
    pub fn visible_by_default(self) -> (r: bool)
        ensures
            r == spec_layer_visible(self),
    {
        match self {
            PidLayer::Geometry | PidLayer::Text | PidLayer::Symbol | PidLayer::Point => true,
            _ => false,
        }
    }
}

/// Every layer the import declares has a name of its own, so that each is
/// created with its own colour and visibility.
pub proof fn lemma_layer_names_distinct(a: PidLayer, b: PidLayer)
    requires
        a != b,
    ensures
        spec_layer_name(a) != spec_layer_name(b),
{
    reveal_strlit("PID-GEOMETRY");
    reveal_strlit("PID-TEXT");
    reveal_strlit("PID-SYMBOL");
    reveal_strlit("PID-SYMBOL-LABEL");
    reveal_strlit("PID-POINT");
    reveal_strlit("PID-ANNOTATION");
    reveal_strlit("PID-CONNECTIVITY");
    reveal_strlit("PID-UNRESOLVED");
    assert("PID-GEOMETRY"@.len() == 12);
    assert("PID-TEXT"@.len() == 8);
    assert("PID-SYMBOL"@.len() == 10);
    assert("PID-SYMBOL-LABEL"@.len() == 16);
    assert("PID-POINT"@.len() == 9);
    assert("PID-ANNOTATION"@.len() == 14);
    assert("PID-CONNECTIVITY"@.len() == 16);
    assert("PID-UNRESOLVED"@.len() == 14);
    assert("PID-SYMBOL-LABEL"@[4] == 'S');
    assert("PID-CONNECTIVITY"@[4] == 'C');
    assert("PID-ANNOTATION"@[4] == 'A');
    assert("PID-UNRESOLVED"@[4] == 'U');
}

/// How far an evidence item of the parser's geometry was decoded.
#[derive(Clone, Copy, Debug, PartialEq, Eq, Structural)]
pub enum EvidenceConfidence {
    Decoded,
    Inferred,
    ProbeOnly,
}

/// How many items of `items` were decoded from the source.
pub open spec fn count_decoded(items: Seq<EvidenceConfidence>) -> nat
    decreases items.len(),
{
    if items.len() == 0 {
        0
    } else {
        count_decoded(items.drop_last()) + if items.last() == EvidenceConfidence::Decoded {
            1nat
        } else {
            0nat
        }
    }
}

/// The headline numbers an import is read against: how many evidence items
/// were decoded and placed, and how many are inferred or probe-only.
pub fn evidence_counts(items: &Vec<EvidenceConfidence>) -> (r: (usize, usize))
    ensures
        r.0 == count_decoded(items@),
        r.0 + r.1 == items@.len(),
{
    let n = items.len();
    let mut placed: usize = 0;
    let mut undrawn: usize = 0;
    let mut i: usize = 0;
    while i < n
        invariant
            i <= n == items@.len(),
            placed == count_decoded(items@.take(i as int)),
            placed + undrawn == i,
        decreases n - i,
    {
        assert(items@.take(i + 1).drop_last() =~= items@.take(i as int));
        match items[i] {
            EvidenceConfidence::Decoded => placed = placed + 1,
            EvidenceConfidence::Inferred | EvidenceConfidence::ProbeOnly => undrawn = undrawn + 1,
        }
        i = i + 1;
    }
    assert(items@.take(n as int) =~= items@);
    (placed, undrawn)
}

/// No component of a path follows its last component.
proof fn lemma_leaf_has_no_separator(path: Seq<char>)
    ensures
        0 <= leaf_start(path) <= path.len(),
        forall|j: int| leaf_start(path) <= j < path.len() ==> !is_path_separator(#[trigger] path[j]),
    decreases path.len(),
{
    if path.len() > 0 && !is_path_separator(path.last()) {
        lemma_leaf_has_no_separator(path.drop_last());
        assert forall|j: int| leaf_start(path) <= j < path.len() implies !is_path_separator(
            #[trigger] path[j],
        ) by {
            if j < path.len() - 1 {
                assert(path[j] == path.drop_last()[j]);
            }
        }
    }
}

/// A symbol name is a bare name: never empty, with no white space at either
/// end and no path separator anywhere in it.
pub proof fn lemma_symbol_name_is_bare(path: Seq<char>)
    ensures
        spec_symbol_name(path) matches Some(name) ==> {
            &&& name.len() > 0
            &&& !is_white_space(name[0])
            &&& !is_white_space(name.last())
            &&& forall|i: int| 0 <= i < name.len() ==> !is_path_separator(#[trigger] name[i])
        },
{
    lemma_leaf_has_no_separator(path);
    let l = leaf(path);
    assert forall|i: int| 0 <= i < l.len() implies !is_path_separator(#[trigger] l[i]) by {
        assert(l[i] == path[leaf_start(path) + i]);
    }
    let (a, b) = lemma_trim(l);
    let file = trim(l);
    let stripped = without_sym_extension(file);
    let (c, d) = lemma_trim(stripped);
    let name = trim(stripped);
    assert forall|i: int| 0 <= i < name.len() implies !is_path_separator(#[trigger] name[i]) by {
        assert(name[i] == stripped[c + i]);
        assert(stripped[c + i] == file[c + i]);
        assert(file[c + i] == l[a + c + i]);
    }
}

/// A run of placeholders repeated `k` times.
pub open spec fn placeholders(k: nat) -> Seq<char>
    decreases k,
{
    if k == 0 {
        Seq::empty()
    } else {
        placeholder() + placeholders((k - 1) as nat)
    }
}

/// A template run made only of placeholders carries no label.
pub proof fn lemma_placeholders_carry_no_label(k: nat)
    ensures
        !spec_carries_a_label(placeholders(k)),
        without_placeholders(placeholders(k)).len() == 0,
    decreases k,
{
    if k > 0 {
        lemma_placeholders_carry_no_label((k - 1) as nat);
        let s = placeholders(k);
        assert(s.take(4) =~= placeholder());
        assert(s.skip(4) =~= placeholders((k - 1) as nat));
    }
}

/// Text with no placeholder in it is a label exactly when it has an
/// alphanumeric character.
pub proof fn lemma_text_without_placeholder(text: Seq<char>)
    requires
        forall|i: int| 0 <= i < text.len() ==> #[trigger] text[i] != 'N',
    ensures
        without_placeholders(text) == text,
        spec_carries_a_label(text) == has_alphanumeric(text),
    decreases text.len(),
{
    if text.len() > 0 {
        let rest = text.skip(1);
        assert forall|i: int| 0 <= i < rest.len() implies #[trigger] rest[i] != 'N' by {
            assert(rest[i] == text[i + 1]);
        }
        lemma_text_without_placeholder(rest);
        if text.len() >= 4 {
            assert(text.take(4)[0] != placeholder()[0]);
        }
        assert(seq![text[0]] + rest =~= text);
    }
}

} // verus!
