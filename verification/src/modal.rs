//! Modal dialogs: which title each one carries, how much room it asks for,
//! and the texts of the confirmation dialogs.
use vstd::prelude::*;
use vstd::string::*;
use i18n_embed::fluent::FluentLanguageLoader;
use crate::i18n::localized_message;
use crate::order::{
    char_vec_views, is_stable_sort_order, lemma_stable_sort_order_unique, lex_le, lists,
    stable_sort_order,
};
use crate::text::{
    eq_ignore_ascii_case_chars, chars_of, decimal, decimal_string, eq_ignore_ascii_case,
    str_equals, str_to_lowercase, string_views, trim, trim_bounds, unicode_lowercase,
};

verus! {

/// The modal dialogs the application can open.
#[derive(Clone, Copy, Debug, PartialEq, Eq, Structural)]
pub enum ModalKind {
    About,
    Shortcuts,
    Aliases,
    Options,
    FindReplace,
    PluginManager,
    UpdateNotice,
    Layers,
    LayerStateManager,
    LayerStateEditor,
    Plot,
    LayoutManager,
    ScaleManager,
    AnnoObjectScale,
    Plotstyle,
    TextStyle,
    MlStyle,
    TableStyle,
    MLeaderStyle,
    DimStyle,
    AssocPrompt,
    AecDropWarning,
    FileInUse,
    ExternalChange,
    LayerDeleteWarning,
    Unsaved,
    PointStyle,
    AttributeEditor,
    SaveDialog,
}

/// How a dialog is sized: to its content, or to its content up to a largest
/// size past which it scrolls.
#[derive(Clone, Copy, Debug, PartialEq, Eq, Structural)]
pub enum ModalFlow {
    Automatic,
    Sized { max_width: u16, max_height: u16 },
}

/// The id of the message that titles a dialog.
pub open spec fn spec_title_message_id(kind: ModalKind) -> Seq<char> {
    match kind {
        ModalKind::About => "modal-about"@,
        ModalKind::Shortcuts => "modal-keyboard-shortcuts"@,
        ModalKind::Aliases => "modal-command-aliases"@,
        ModalKind::Options => "action-options"@,
        ModalKind::FindReplace => "modal-find-replace"@,
        ModalKind::PluginManager => "modal-plugin-manager"@,
        ModalKind::UpdateNotice => "modal-update-available"@,
        ModalKind::Layers => "modal-layer-manager"@,
        ModalKind::LayerStateManager => "modal-layer-state-manager"@,
        ModalKind::LayerStateEditor => "modal-edit-layer-state"@,
        ModalKind::Plot => "modal-plot"@,
        ModalKind::LayoutManager => "modal-layout-manager"@,
        ModalKind::ScaleManager => "modal-scale-manager"@,
        ModalKind::AnnoObjectScale => "modal-annotation-object-scale"@,
        ModalKind::Plotstyle => "modal-plot-style-editor"@,
        ModalKind::TextStyle => "modal-text-style-manager"@,
        ModalKind::MlStyle => "modal-multiline-style-manager"@,
        ModalKind::TableStyle => "modal-table-style-manager"@,
        ModalKind::MLeaderStyle => "modal-multileader-style-manager"@,
        ModalKind::DimStyle => "modal-dimension-style-manager"@,
        ModalKind::AssocPrompt => "modal-default-application"@,
        ModalKind::AecDropWarning => "modal-save-warning"@,
        ModalKind::FileInUse => "modal-unable-save"@,
        ModalKind::ExternalChange => "modal-drawing-changed"@,
        ModalKind::LayerDeleteWarning => "modal-delete-layer"@,
        ModalKind::Unsaved => "modal-unsaved-changes"@,
        ModalKind::PointStyle => "modal-point-style"@,
        ModalKind::AttributeEditor => "modal-attribute-editor"@,
        ModalKind::SaveDialog => "modal-save-drawing-as"@,
    }
}

/// A dialog that is sized to its content up to `w` by `h`.
pub open spec fn sized(w: u16, h: u16) -> ModalFlow {
    ModalFlow::Sized { max_width: w, max_height: h }
}

/// How a dialog is sized. The layer state editor falls back to a plain notice,
/// sized to its text, when the state it was opened on no longer exists; in the
/// web build the plug-in manager is a notice sized to its text as well.
pub open spec fn spec_flow(kind: ModalKind, layer_state_draft_present: bool, on_web: bool) -> ModalFlow {
    match kind {
        ModalKind::About => ModalFlow::Automatic,
        ModalKind::Shortcuts => sized(720, 520),
        ModalKind::Aliases => sized(480, 520),
        ModalKind::Options => sized(520, 500),
        ModalKind::FindReplace => ModalFlow::Automatic,
        ModalKind::PluginManager => if on_web {
            ModalFlow::Automatic
        } else {
            sized(940, 600)
        },
        ModalKind::UpdateNotice => sized(560, 460),
        ModalKind::Layers => sized(900, 360),
        ModalKind::LayerStateManager => sized(720, 420),
        ModalKind::LayerStateEditor => if layer_state_draft_present {
            sized(1180, 560)
        } else {
            ModalFlow::Automatic
        },
        ModalKind::Plot => sized(760, 540),
        ModalKind::LayoutManager => sized(640, 320),
        ModalKind::ScaleManager => sized(520, 360),
        ModalKind::AnnoObjectScale => sized(360, 420),
        ModalKind::Plotstyle => sized(780, 540),
        ModalKind::TextStyle => sized(860, 480),
        ModalKind::MlStyle => sized(620, 420),
        ModalKind::TableStyle => sized(620, 420),
        ModalKind::MLeaderStyle => sized(560, 560),
        ModalKind::DimStyle => sized(720, 560),
        ModalKind::AssocPrompt => ModalFlow::Automatic,
        ModalKind::AecDropWarning => ModalFlow::Automatic,
        ModalKind::FileInUse => ModalFlow::Automatic,
        ModalKind::ExternalChange => ModalFlow::Automatic,
        ModalKind::LayerDeleteWarning => ModalFlow::Automatic,
        ModalKind::Unsaved => ModalFlow::Automatic,
        ModalKind::PointStyle => sized(360, 470),
        ModalKind::AttributeEditor => sized(640, 500),
        ModalKind::SaveDialog => ModalFlow::Automatic,
    }
}

impl ModalKind {
    /// The id of the message that titles this dialog.
    pub fn title_message_id(self) -> (r: &'static str)
        ensures
            r@ == spec_title_message_id(self),
    {
        match self {
            ModalKind::About => "modal-about",
            ModalKind::Shortcuts => "modal-keyboard-shortcuts",
            ModalKind::Aliases => "modal-command-aliases",
            ModalKind::Options => "action-options",
            ModalKind::FindReplace => "modal-find-replace",
            ModalKind::PluginManager => "modal-plugin-manager",
            ModalKind::UpdateNotice => "modal-update-available",
            ModalKind::Layers => "modal-layer-manager",
            ModalKind::LayerStateManager => "modal-layer-state-manager",
            ModalKind::LayerStateEditor => "modal-edit-layer-state",
            ModalKind::Plot => "modal-plot",
            ModalKind::LayoutManager => "modal-layout-manager",
            ModalKind::ScaleManager => "modal-scale-manager",
            ModalKind::AnnoObjectScale => "modal-annotation-object-scale",
            ModalKind::Plotstyle => "modal-plot-style-editor",
            ModalKind::TextStyle => "modal-text-style-manager",
            ModalKind::MlStyle => "modal-multiline-style-manager",
            ModalKind::TableStyle => "modal-table-style-manager",
            ModalKind::MLeaderStyle => "modal-multileader-style-manager",
            ModalKind::DimStyle => "modal-dimension-style-manager",
            ModalKind::AssocPrompt => "modal-default-application",
            ModalKind::AecDropWarning => "modal-save-warning",
            ModalKind::FileInUse => "modal-unable-save",
            ModalKind::ExternalChange => "modal-drawing-changed",
            ModalKind::LayerDeleteWarning => "modal-delete-layer",
            ModalKind::Unsaved => "modal-unsaved-changes",
            ModalKind::PointStyle => "modal-point-style",
            ModalKind::AttributeEditor => "modal-attribute-editor",
            ModalKind::SaveDialog => "modal-save-drawing-as",
        }
    }

    /// How this dialog is sized; `layer_state_draft_present` says whether the
    /// layer state being edited still exists, and `on_web` whether the
    /// application runs in a browser.
    pub fn flow(self, layer_state_draft_present: bool, on_web: bool) -> (r: ModalFlow)
        ensures
            r == spec_flow(self, layer_state_draft_present, on_web),
    {
        match self {
            ModalKind::About => ModalFlow::Automatic,
            ModalKind::Shortcuts => ModalFlow::Sized { max_width: 720, max_height: 520 },
            ModalKind::Aliases => ModalFlow::Sized { max_width: 480, max_height: 520 },
            ModalKind::Options => ModalFlow::Sized { max_width: 520, max_height: 500 },
            ModalKind::FindReplace => ModalFlow::Automatic,
            ModalKind::PluginManager => if on_web {
                ModalFlow::Automatic
            } else {
                ModalFlow::Sized { max_width: 940, max_height: 600 }
            },
            ModalKind::UpdateNotice => ModalFlow::Sized { max_width: 560, max_height: 460 },
            ModalKind::Layers => ModalFlow::Sized { max_width: 900, max_height: 360 },
            ModalKind::LayerStateManager => ModalFlow::Sized { max_width: 720, max_height: 420 },
            ModalKind::LayerStateEditor => if layer_state_draft_present {
                ModalFlow::Sized { max_width: 1180, max_height: 560 }
            } else {
                ModalFlow::Automatic
            },
            ModalKind::Plot => ModalFlow::Sized { max_width: 760, max_height: 540 },
            ModalKind::LayoutManager => ModalFlow::Sized { max_width: 640, max_height: 320 },
            ModalKind::ScaleManager => ModalFlow::Sized { max_width: 520, max_height: 360 },
            ModalKind::AnnoObjectScale => ModalFlow::Sized { max_width: 360, max_height: 420 },
            ModalKind::Plotstyle => ModalFlow::Sized { max_width: 780, max_height: 540 },
            ModalKind::TextStyle => ModalFlow::Sized { max_width: 860, max_height: 480 },
            ModalKind::MlStyle => ModalFlow::Sized { max_width: 620, max_height: 420 },
            ModalKind::TableStyle => ModalFlow::Sized { max_width: 620, max_height: 420 },
            ModalKind::MLeaderStyle => ModalFlow::Sized { max_width: 560, max_height: 560 },
            ModalKind::DimStyle => ModalFlow::Sized { max_width: 720, max_height: 560 },
            ModalKind::AssocPrompt => ModalFlow::Automatic,
            ModalKind::AecDropWarning => ModalFlow::Automatic,
            ModalKind::FileInUse => ModalFlow::Automatic,
            ModalKind::ExternalChange => ModalFlow::Automatic,
            ModalKind::LayerDeleteWarning => ModalFlow::Automatic,
            ModalKind::Unsaved => ModalFlow::Automatic,
            ModalKind::PointStyle => ModalFlow::Sized { max_width: 360, max_height: 470 },
            ModalKind::AttributeEditor => ModalFlow::Sized { max_width: 640, max_height: 500 },
            ModalKind::SaveDialog => ModalFlow::Automatic,
        }
    }
}

/// The notice the layer state editor shows in place of its editor when the
/// layer state it was opened on no longer exists.
pub open spec fn spec_missing_layer_state_notice() -> Seq<char> {
    "The selected layer state is no longer available."@
}

/// The notice the layer state editor shows when its layer state is gone.
pub fn missing_layer_state_notice() -> (r: &'static str)
    ensures
        r@ == spec_missing_layer_state_notice(),
{
    "The selected layer state is no longer available."
}

/// A drawing tab, as the dialogs see it.
pub struct TabSummary {
    pub display_name: String,
    pub dirty: bool,
}

/// What is waiting on the answer to the unsaved-changes dialog.
#[derive(Clone, Copy, Debug, PartialEq, Eq, Structural)]
pub enum PendingClose {
    Tab(usize),
    Quit,
}

/// The part of the application state that the modal dialogs read.
pub struct OpenCADStudio {
    pub active_modal: Option<ModalKind>,
    pub layer_state_draft_present: bool,
    pub pending_close: Option<PendingClose>,
    pub tabs: Vec<TabSummary>,
}

/// The name the unsaved-changes dialog asks about: the tab being closed, or
/// on quitting the first tab with unsaved changes; empty when there is none.
pub open spec fn spec_unsaved_tab_name(pending: Option<PendingClose>, tabs: Seq<TabSummary>) -> Seq<
    char,
> {
    match pending {
        Some(PendingClose::Tab(i)) => if i < tabs.len() {
            tabs[i as int].display_name@
        } else {
            Seq::empty()
        },
        Some(PendingClose::Quit) => if exists|k: int| 0 <= k < tabs.len() && #[trigger] tabs[k].dirty {
            tabs[first_dirty(tabs)].display_name@
        } else {
            Seq::empty()
        },
        None => Seq::empty(),
    }
}

/// The index of the first tab with unsaved changes.
pub open spec fn first_dirty(tabs: Seq<TabSummary>) -> int {
    choose|k: int|
        0 <= k < tabs.len() && tabs[k].dirty && forall|j: int| 0 <= j < k ==> !#[trigger] tabs[j].dirty
}

/// The lowest index among those of the dirty tabs is one of them.
proof fn lemma_first_dirty(tabs: Seq<TabSummary>, k: int)
    requires
        0 <= k < tabs.len(),
        tabs[k].dirty,
        forall|j: int| 0 <= j < k ==> !#[trigger] tabs[j].dirty,
    ensures
        first_dirty(tabs) == k,
{
    let f = first_dirty(tabs);
    assert(0 <= f < tabs.len() && tabs[f].dirty && forall|j: int|
        0 <= j < f ==> !#[trigger] tabs[j].dirty);
    if f < k {
        assert(!tabs[f].dirty);
    }
    if k < f {
        assert(!tabs[k].dirty);
    }
}

impl OpenCADStudio {
    /// Title shown in the active modal's title bar, in the current UI
    /// language; empty when no modal is open.
    pub fn modal_title(&self, loader: &FluentLanguageLoader) -> (r: String)
        ensures
            self.active_modal is None ==> r@ == Seq::<char>::empty(),
            self.active_modal matches Some(kind) ==> exists|id: &str|
                id@ == spec_title_message_id(kind) && #[trigger] call_ensures(
                    localized_message,
                    (loader, id),
                    r,
                ),
    {
        match self.active_modal {
            Some(kind) => localized_message(loader, kind.title_message_id()),
            None => String::new(),
        }
    }

    /// How the open modal is sized, if one is open; `on_web` says whether the
    /// application runs in a browser.
    pub fn modal_flow(&self, on_web: bool) -> (r: Option<ModalFlow>)
        ensures
            r == match self.active_modal {
                Some(kind) => Some(spec_flow(kind, self.layer_state_draft_present, on_web)),
                None => None,
            },
    {
        match self.active_modal {
            Some(kind) => Some(kind.flow(self.layer_state_draft_present, on_web)),
            None => None,
        }
    }

    /// The tab name the unsaved-changes dialog asks about.
    pub fn unsaved_tab_name(&self) -> (r: String)
        ensures
            r@ == spec_unsaved_tab_name(self.pending_close, self.tabs@),
    {
        match self.pending_close {
            Some(PendingClose::Tab(i)) => {
                if i < self.tabs.len() {
                    self.tabs[i].display_name.clone()
                } else {
                    String::new()
                }
            },
            Some(PendingClose::Quit) => {
                let n = self.tabs.len();
                let mut k: usize = 0;
                while k < n
                    invariant
                        n == self.tabs@.len(),
                        self.pending_close == Some(PendingClose::Quit),
                        k <= n,
                        forall|j: int| 0 <= j < k ==> !#[trigger] self.tabs@[j].dirty,
                    decreases n - k,
                {
                    if self.tabs[k].dirty {
                        proof {
                            lemma_first_dirty(self.tabs@, k as int);
                            assert(self.tabs@[k as int].dirty);
                        }
                        return self.tabs[k].display_name.clone();
                    }
                    k = k + 1;
                }
                String::new()
            },
            None => String::new(),
        }
    }
}

/// The question of the unsaved-changes dialog.
pub open spec fn spec_unsaved_changes_text(name: Seq<char>) -> Seq<char> {
    "Do you want to save changes to \""@ + name + "\"?"@
}

/// The question of the unsaved-changes dialog about the tab `name`.
pub fn unsaved_changes_text(name: &str) -> (r: String)
    ensures
        r@ == spec_unsaved_changes_text(name@),
{
    let mut r = String::from_str("Do you want to save changes to \"");
    r.append(name);
    r.append("\"?");
    r
}

/// The warning shown before a lossy Save-As of a drawing that carries `count`
/// objects the target format `target` cannot store.
pub open spec fn spec_aec_drop_text(count: nat, target: Seq<char>, source_version: Seq<char>) -> Seq<
    char,
> {
    "This drawing contains "@ + decimal(count) + " AEC/Civil objects that \""@ + target
        + "\" cannot store, so they will not be saved.\n\nTo keep them, save in the source version ("@
        + source_version + ")."@
}

/// The warning shown before a lossy Save-As: `count` objects survive only as
/// bytes of the source version `source_version` and `target` cannot store them.
pub fn aec_drop_text(count: usize, target: &str, source_version: &str) -> (r: String)
    ensures
        r@ == spec_aec_drop_text(count as nat, target@, source_version@),
{
    let mut r = String::from_str("This drawing contains ");
    let n = decimal_string(count);
    r.append(n.as_str());
    r.append(" AEC/Civil objects that \"");
    r.append(target);
    r.append("\" cannot store, so they will not be saved.\n\nTo keep them, save in the source version (");
    r.append(source_version);
    r.append(").");
    r
}

/// The confirmation asked before deleting the layers `names` that still hold
/// `count` objects.
pub open spec fn spec_layer_delete_warning_text(names: Seq<Seq<char>>, count: nat) -> Seq<char> {
    let subject = if names.len() == 1 {
        "Layer \""@ + names[0] + "\""@
    } else {
        decimal(names.len()) + " selected layers"@
    };
    subject + " still "@ + (if names.len() == 1 {
        "has"@
    } else {
        "hold"@
    }) + " "@ + decimal(count) + " "@ + (if count == 1 {
        "object"@
    } else {
        "objects"@
    }) + ".\n\nDeleting will also remove "@ + (if count == 1 {
        "that object"@
    } else {
        "those objects"@
    }) + " from the drawing. Continue?"@
}

/// The confirmation asked before deleting layers that still hold objects.
pub fn layer_delete_warning_text(names: &Vec<String>, count: usize) -> (r: String)
    ensures
        r@ == spec_layer_delete_warning_text(names@.map_values(|s: String| s@), count as nat),
{
    let ghost views = names@.map_values(|s: String| s@);
    let single = names.len() == 1;
    let mut r = if single {
        let mut s = String::from_str("Layer \"");
        s.append(names[0].as_str());
        s.append("\"");
        s
    } else {
        let mut s = decimal_string(names.len());
        s.append(" selected layers");
        s
    };
    r.append(" still ");
    r.append(if single { "has" } else { "hold" });
    r.append(" ");
    let c = decimal_string(count);
    r.append(c.as_str());
    r.append(" ");
    r.append(if count == 1 { "object" } else { "objects" });
    r.append(".\n\nDeleting will also remove ");
    r.append(if count == 1 { "that object" } else { "those objects" });
    r.append(" from the drawing. Continue?");
    assert(single ==> views[0] == names@[0]@);
    r
}

/// Whether a line type is offered by name in the attribute editor: `ByLayer`
/// heads the list, and nameless entries are left out.
pub open spec fn is_listed_linetype(name: Seq<char>) -> bool {
    name.len() > 0 && name != "ByLayer"@
}

/// The line types of the drawing that the attribute editor lists after `ByLayer`.
pub open spec fn listed_linetypes(names: Seq<Seq<char>>) -> Seq<Seq<char>> {
    names.filter(|name: Seq<char>| is_listed_linetype(name))
}

/// The line type choices of the attribute editor.
pub open spec fn spec_attribute_editor_linetypes(names: Seq<Seq<char>>) -> Seq<Seq<char>> {
    seq!["ByLayer"@] + listed_linetypes(names)
}

/// A text style name as the attribute editor lists it: trimmed, and left out
/// when nothing remains.
pub open spec fn listed_text_style(name: Seq<char>) -> Option<Seq<char>> {
    if trim(name).len() > 0 {
        Some(trim(name))
    } else {
        None
    }
}

/// The text style choices of the attribute editor.
pub open spec fn spec_attribute_editor_text_styles(names: Seq<Seq<char>>) -> Seq<Seq<char>> {
    names.filter_map(|name: Seq<char>| listed_text_style(name))
}

/// The line type choices of the attribute editor for a drawing whose line
/// types are named `names`: `ByLayer`, then every other named line type in order.
pub fn attribute_editor_linetypes(names: &Vec<String>) -> (r: Vec<String>)
    ensures
        string_views(r@) == spec_attribute_editor_linetypes(string_views(names@)),
{
    let ghost views = string_views(names@);
    let mut r: Vec<String> = Vec::new();
    r.push(String::from_str("ByLayer"));
    let n = names.len();
    let mut i: usize = 0;
    assert(views.take(0).filter(|name: Seq<char>| is_listed_linetype(name)) =~= Seq::empty());
    while i < n
        invariant
            n == names@.len(),
            views == string_views(names@),
            i <= n,
            string_views(r@) == seq!["ByLayer"@] + listed_linetypes(views.take(i as int)),
        decreases n - i,
    {
        assert(views.take(i + 1).drop_last() =~= views.take(i as int));
        assert(views.take(i + 1).last() == names@[i as int]@);
        let name = names[i].as_str();
        let ghost before = string_views(r@);
        let listed = name.unicode_len() > 0 && !str_equals(name, "ByLayer");
        assert(listed == is_listed_linetype(views[i as int]));
        if listed {
            r.push(names[i].clone());
            assert(string_views(r@) =~= before.push(views[i as int]));
        }
        proof {
            let t = views.take(i + 1);
            assert(t.len() > 0);
            assert(t.last() == views[i as int]);
            reveal_with_fuel(Seq::filter, 2);
            assert(listed_linetypes(t) == if is_listed_linetype(t.last()) {
                listed_linetypes(t.drop_last()).push(t.last())
            } else {
                listed_linetypes(t.drop_last())
            });
        }
        assert(listed_linetypes(views.take(i + 1)) == if listed {
            listed_linetypes(views.take(i as int)).push(views[i as int])
        } else {
            listed_linetypes(views.take(i as int))
        });
        i = i + 1;
        assert(string_views(r@) =~= seq!["ByLayer"@] + listed_linetypes(views.take(i as int)));
    }
    assert(views.take(n as int) =~= views);
    r
}

/// The text style choices of the attribute editor for a drawing whose text
/// styles are named `names`: each name trimmed, in order, blank ones left out.
pub fn attribute_editor_text_styles(names: &Vec<String>) -> (r: Vec<String>)
    ensures
        string_views(r@) == spec_attribute_editor_text_styles(string_views(names@)),
{
    let ghost views = string_views(names@);
    let mut r: Vec<String> = Vec::new();
    let n = names.len();
    let mut i: usize = 0;
    assert(string_views(r@) =~= views.take(0).filter_map(
        |name: Seq<char>| listed_text_style(name),
    ));
    while i < n
        invariant
            n == names@.len(),
            views == string_views(names@),
            i <= n,
            string_views(r@) == spec_attribute_editor_text_styles(views.take(i as int)),
        decreases n - i,
    {
        assert(views.take(i + 1).drop_last() =~= views.take(i as int));
        assert(views.take(i + 1).last() == names@[i as int]@);
        let name = names[i].as_str();
        let chars = chars_of(name);
        let (a, b) = trim_bounds(&chars, 0, chars.len());
        assert(chars@.subrange(0, chars@.len() as int) =~= chars@);
        if a < b {
            r.push(String::from_str(name.substring_char(a, b)));
        }
        i = i + 1;
        assert(string_views(r@) =~= spec_attribute_editor_text_styles(views.take(i as int)));
    }
    assert(views.take(n as int) =~= views);
    r
}

/// The line types the layer state editor offers before sorting: those of the
/// drawing, then each non-empty line type the state's layers use that is not
/// already listed, compared without regard to ASCII case.
pub open spec fn merged_linetypes(names: Seq<Seq<char>>, layer_linetypes: Seq<Seq<char>>) -> Seq<
    Seq<char>,
>
    decreases layer_linetypes.len(),
{
    if layer_linetypes.len() == 0 {
        names
    } else {
        let listed = merged_linetypes(names, layer_linetypes.drop_last());
        let t = layer_linetypes.last();
        if t.len() > 0 && !(exists|k: int|
            0 <= k < listed.len() && #[trigger] eq_ignore_ascii_case(listed[k], t)) {
            listed.push(t)
        } else {
            listed
        }
    }
}

/// The sort keys of a list of names: their lowercase forms.
pub open spec fn lowercase_keys(names: Seq<Seq<char>>) -> Seq<Seq<char>> {
    names.map_values(|name: Seq<char>| unicode_lowercase(name))
}

/// Whether `r` lists `names` in the order of a stable sort by lowercase form.
pub open spec fn sorted_by_lowercase(names: Seq<Seq<char>>, r: Seq<Seq<char>>) -> bool {
    exists|order: Seq<usize>|
        #[trigger] is_stable_sort_order(lowercase_keys(names), order) && r == order.map_values(
            |k: usize| names[k as int],
        )
}

/// Sorting by lowercase form has a single outcome, so the layer state
/// editor's list is determined by the line types it starts from.
pub proof fn lemma_sorted_by_lowercase_unique(
    names: Seq<Seq<char>>,
    r1: Seq<Seq<char>>,
    r2: Seq<Seq<char>>,
)
    requires
        sorted_by_lowercase(names, r1),
        sorted_by_lowercase(names, r2),
    ensures
        r1 == r2,
{
    let o1 = choose|order: Seq<usize>|
        #[trigger] is_stable_sort_order(lowercase_keys(names), order) && r1 == order.map_values(
            |k: usize| names[k as int],
        );
    let o2 = choose|order: Seq<usize>|
        #[trigger] is_stable_sort_order(lowercase_keys(names), order) && r2 == order.map_values(
            |k: usize| names[k as int],
        );
    lemma_stable_sort_order_unique(lowercase_keys(names), o1, o2);
}

/// The line types of the drawing followed by those the layers use that it
/// does not list yet.
fn merge_linetypes(names: &Vec<String>, layer_linetypes: &Vec<String>) -> (r: Vec<String>)
    ensures
        string_views(r@) == merged_linetypes(string_views(names@), string_views(layer_linetypes@)),
{
    let ghost nv = string_views(names@);
    let ghost ev = string_views(layer_linetypes@);
    let mut r: Vec<String> = Vec::new();
    let mut i: usize = 0;
    while i < names.len()
        invariant
            nv == string_views(names@),
            i <= names@.len(),
            string_views(r@) == nv.take(i as int),
        decreases names@.len() - i,
    {
        let ghost before = string_views(r@);
        r.push(names[i].clone());
        assert(string_views(r@) =~= before.push(nv[i as int]));
        assert(nv.take(i + 1) =~= nv.take(i as int).push(nv[i as int]));
        i = i + 1;
    }
    assert(nv.take(names@.len() as int) =~= nv);
    assert(ev.take(0) =~= Seq::<Seq<char>>::empty());
    let mut j: usize = 0;
    while j < layer_linetypes.len()
        invariant
            nv == string_views(names@),
            ev == string_views(layer_linetypes@),
            j <= layer_linetypes@.len(),
            string_views(r@) == merged_linetypes(nv, ev.take(j as int)),
        decreases layer_linetypes@.len() - j,
    {
        let ghost listed = string_views(r@);
        assert(ev.take(j + 1).drop_last() =~= ev.take(j as int));
        assert(ev.take(j + 1).last() == layer_linetypes@[j as int]@);
        let t = chars_of(layer_linetypes[j].as_str());
        if t.len() > 0 {
            let mut found = false;
            let mut k: usize = 0;
            while k < r.len()
                invariant
                    listed == string_views(r@),
                    k <= r@.len(),
                    found == exists|m: int|
                        0 <= m < k && #[trigger] eq_ignore_ascii_case(listed[m], t@),
                decreases r@.len() - k,
            {
                let c = chars_of(r[k].as_str());
                let same = eq_ignore_ascii_case_chars(&c, &t);
                assert(listed[k as int] == r@[k as int]@);
                if same {
                    found = true;
                }
                k = k + 1;
            }
            if !found {
                r.push(layer_linetypes[j].clone());
                assert(string_views(r@) =~= listed.push(t@));
            }
        }
        j = j + 1;
    }
    assert(ev.take(layer_linetypes@.len() as int) =~= ev);
    r
}

/// The line type choices of the layer state editor: the drawing's line types
/// `document_linetypes` and every other non-empty line type the state's
/// layers use (`layer_linetypes`, no ASCII-case variant of one already
/// listed), sorted by lowercase form, names with the same lowercase form
/// keeping their order.
pub fn layer_state_editor_linetypes(
    document_linetypes: &Vec<String>,
    layer_linetypes: &Vec<String>,
) -> (r: Vec<String>)
    ensures
        sorted_by_lowercase(
            merged_linetypes(string_views(document_linetypes@), string_views(layer_linetypes@)),
            string_views(r@),
        ),
{
    let merged = merge_linetypes(document_linetypes, layer_linetypes);
    let ghost m = string_views(merged@);
    let mut keys: Vec<Vec<char>> = Vec::new();
    let mut i: usize = 0;
    while i < merged.len()
        invariant
            m == string_views(merged@),
            i <= merged@.len(),
            char_vec_views(keys@) == lowercase_keys(m).take(i as int),
        decreases merged@.len() - i,
    {
        let ghost before = char_vec_views(keys@);
        let lower = str_to_lowercase(merged[i].as_str());
        let key = chars_of(lower.as_str());
        assert(key@ == lowercase_keys(m)[i as int]);
        keys.push(key);
        assert(char_vec_views(keys@) =~= before.push(lowercase_keys(m)[i as int]));
        assert(lowercase_keys(m).take(i + 1) =~= lowercase_keys(m).take(i as int).push(
            lowercase_keys(m)[i as int],
        ));
        i = i + 1;
    }
    assert(lowercase_keys(m).take(merged@.len() as int) =~= lowercase_keys(m));
    let order = stable_sort_order(&keys);
    let mut r: Vec<String> = Vec::new();
    let mut k: usize = 0;
    while k < order.len()
        invariant
            m == string_views(merged@),
            is_stable_sort_order(lowercase_keys(m), order@),
            k <= order@.len(),
            string_views(r@) == order@.take(k as int).map_values(|x: usize| m[x as int]),
        decreases order@.len() - k,
    {
        assert(order@[k as int] < m.len());
        let ghost before = string_views(r@);
        r.push(merged[order[k]].clone());
        assert(string_views(r@) =~= before.push(m[order@[k as int] as int]));
        assert(order@.take(k + 1).map_values(|x: usize| m[x as int]) =~= order@.take(
            k as int,
        ).map_values(|x: usize| m[x as int]).push(m[order@[k as int] as int]));
        k = k + 1;
    }
    assert(order@.take(order@.len() as int) =~= order@);
    assert(is_stable_sort_order(lowercase_keys(m), order@));
    r
}

/// A block record of the drawing, as the style dialogs see it.
pub struct BlockSummary {
    pub name: String,
    pub handle: u64,
    pub is_layout: bool,
    pub is_model_space: bool,
    pub is_paper_space: bool,
    pub is_xref: bool,
    pub is_xref_overlay: bool,
    pub is_external: bool,
}

/// A named table record and its handle.
pub struct NamedHandle {
    pub name: String,
    pub handle: u64,
}

/// Whether a block can serve as a dimension arrowhead: an ordinary block of
/// this drawing, not a layout or space, not external, and not anonymous.
pub open spec fn is_arrowhead_block(b: BlockSummary) -> bool {
    &&& !b.is_layout
    &&& !b.is_model_space
    &&& !b.is_paper_space
    &&& !b.is_xref
    &&& !b.is_xref_overlay
    &&& !b.is_external
    &&& !(b.name@.len() > 0 && b.name@[0] == '*')
}

/// The arrowhead blocks offered by the dimension style dialog after `Default`.
pub open spec fn arrowhead_blocks(blocks: Seq<BlockSummary>) -> Seq<Seq<char>> {
    blocks.filter(|b: BlockSummary| is_arrowhead_block(b)).map_values(|b: BlockSummary| b.name@)
}

/// The arrowhead block choices of the dimension style dialog.
pub open spec fn spec_dimension_block_options(blocks: Seq<BlockSummary>) -> Seq<Seq<char>> {
    seq!["Default"@] + arrowhead_blocks(blocks)
}

/// The arrowhead block choices of the dimension style dialog: `Default`, then
/// the name of every block that can serve as an arrowhead, in order.
pub fn dimension_block_options(blocks: &Vec<BlockSummary>) -> (r: Vec<String>)
    ensures
        string_views(r@) == spec_dimension_block_options(blocks@),
{
    let mut r: Vec<String> = Vec::new();
    r.push(String::from_str("Default"));
    let n = blocks.len();
    let mut i: usize = 0;
    while i < n
        invariant
            n == blocks@.len(),
            i <= n,
            string_views(r@) == seq!["Default"@] + arrowhead_blocks(blocks@.take(i as int)),
        decreases n - i,
    {
        let b = &blocks[i];
        let name = b.name.as_str();
        let anonymous = name.unicode_len() > 0 && name.get_char(0) == '*';
        let keep = !b.is_layout && !b.is_model_space && !b.is_paper_space && !b.is_xref
            && !b.is_xref_overlay && !b.is_external && !anonymous;
        let ghost before = string_views(r@);
        proof {
            let t = blocks@.take(i + 1);
            assert(t.drop_last() =~= blocks@.take(i as int));
            assert(t.last() == blocks@[i as int]);
            reveal_with_fuel(Seq::filter, 2);
            let f = blocks@.take(i as int).filter(|b: BlockSummary| is_arrowhead_block(b));
            assert(t.filter(|b: BlockSummary| is_arrowhead_block(b)) == if keep {
                f.push(blocks@[i as int])
            } else {
                f
            });
            assert(f.push(blocks@[i as int]).map_values(|b: BlockSummary| b.name@) =~= f.map_values(
                |b: BlockSummary| b.name@,
            ).push(blocks@[i as int].name@));
        }
        if keep {
            r.push(b.name.clone());
            assert(string_views(r@) =~= before.push(blocks@[i as int].name@));
        }
        i = i + 1;
    }
    assert(blocks@.take(n as int) =~= blocks@);
    r
}

/// The name a style dialog shows for a referenced record: the name of the
/// first record with the handle, or `default` when there is no reference or
/// no such record.
pub open spec fn spec_name_for_handle(
    records: Seq<NamedHandle>,
    handle: Option<u64>,
    default: Seq<char>,
) -> Seq<char> {
    match handle {
        Some(h) => if exists|k: int| 0 <= k < records.len() && #[trigger] records[k].handle == h {
            records[first_with_handle(records, h)].name@
        } else {
            default
        },
        None => default,
    }
}

/// The position of the first record with handle `h`.
pub open spec fn first_with_handle(records: Seq<NamedHandle>, h: u64) -> int {
    choose|k: int|
        0 <= k < records.len() && records[k].handle == h && forall|j: int|
            0 <= j < k ==> #[trigger] records[j].handle != h
}

proof fn lemma_first_with_handle(records: Seq<NamedHandle>, h: u64, k: int)
    requires
        0 <= k < records.len(),
        records[k].handle == h,
        forall|j: int| 0 <= j < k ==> #[trigger] records[j].handle != h,
    ensures
        first_with_handle(records, h) == k,
{
    let f = first_with_handle(records, h);
    assert(0 <= f < records.len() && records[f].handle == h && forall|j: int|
        0 <= j < f ==> #[trigger] records[j].handle != h);
    if f < k {
        assert(records[f].handle != h);
    }
    if k < f {
        assert(records[k].handle != h);
    }
}

/// The name of the record a style refers to by `handle`, or `default` when it
/// refers to none or to one the drawing does not hold.
pub fn name_for_handle(records: &Vec<NamedHandle>, handle: Option<u64>, default: &str) -> (r:
    String)
    ensures
        r@ == spec_name_for_handle(records@, handle, default@),
{
    match handle {
        None => String::from_str(default),
        Some(h) => {
            let n = records.len();
            let mut k: usize = 0;
            while k < n
                invariant
                    n == records@.len(),
                    handle == Some(h),
                    k <= n,
                    forall|j: int| 0 <= j < k ==> #[trigger] records@[j].handle != h,
                decreases n - k,
            {
                if records[k].handle == h {
                    proof {
                        lemma_first_with_handle(records@, h, k as int);
                        assert(records@[k as int].handle == h);
                    }
                    return records[k].name.clone();
                }
                k = k + 1;
            }
            String::from_str(default)
        },
    }
}

/// A choice list headed by `first`, followed by `names` in order.
pub fn options_headed_by(first: &str, names: &Vec<String>) -> (r: Vec<String>)
    ensures
        string_views(r@) == seq![first@] + string_views(names@),
{
    let mut r: Vec<String> = Vec::new();
    r.push(String::from_str(first));
    let mut i: usize = 0;
    while i < names.len()
        invariant
            i <= names@.len(),
            string_views(r@) == seq![first@] + string_views(names@).take(i as int),
        decreases names@.len() - i,
    {
        let ghost before = string_views(r@);
        r.push(names[i].clone());
        assert(string_views(r@) =~= before.push(names@[i as int]@));
        assert(string_views(names@).take(i + 1) =~= string_views(names@).take(i as int).push(
            names@[i as int]@,
        ));
        i = i + 1;
    }
    assert(string_views(names@).take(names@.len() as int) =~= string_views(names@));
    r
}

/// Calls `std::path::Path::file_name` on `path` and writes the name it returns
/// as a string. Public because the contract of `displayed_file_name` speaks of
/// its answers. Trusted, and nothing is stated of the result: which part of
/// `path` is its last component depends on the path syntax of the platform.
#[verifier::external_body]
pub fn path_file_name(path: &str) -> Option<String> {
    std::path::Path::new(path).file_name().map(|name| name.to_string_lossy().into_owned())
}

/// Calls `std::path::Path::extension` on `path` and writes the extension it
/// returns as a string. Public because the contract of `has_dxf_extension`
/// speaks of its answers. Trusted, and nothing is stated of the result: which
/// part of `path` is its extension depends on the path syntax of the platform.
#[verifier::external_body]
pub fn path_extension(path: &str) -> Option<String> {
    std::path::Path::new(path).extension().map(|extension| extension.to_string_lossy().into_owned())
}

/// The name a save dialog calls a drawing by: its file name, or `Drawing`
/// when its path has none.
pub open spec fn spec_displayed_file_name(file_name: Option<String>) -> Seq<char> {
    match file_name {
        Some(name) => name@,
        None => "Drawing"@,
    }
}

/// The name the save dialogs call the drawing at `path` by: the file name of
/// the path, or `Drawing` when the path has none.
pub fn displayed_file_name(path: &str) -> (r: String)
    ensures
        exists|file_name: Option<String>|
            #[trigger] call_ensures(path_file_name, (path,), file_name) && r@
                == spec_displayed_file_name(file_name),
{
    match path_file_name(path) {
        Some(name) => name,
        None => String::from_str("Drawing"),
    }
}

/// The heading of the dialog shown when the drawing `file_name` could not be
/// saved because another application holds the file.
pub fn file_in_use_heading(file_name: &str) -> (r: String)
    ensures
        r@ == "\""@ + file_name@ + "\" could not be saved."@,
{
    let mut r = String::from_str("\"");
    r.append(file_name);
    r.append("\" could not be saved.");
    r
}

/// What the file-in-use dialog explains and advises.
pub fn file_in_use_explanation() -> (r: &'static str)
    ensures
        r@
            == "The file is open or being used by another application. Close it there and retry, or save this drawing under a different name."@,
{
    "The file is open or being used by another application. Close it there and retry, or save this drawing under a different name."
}

/// The heading of the dialog shown when the drawing `file_name` was changed on
/// disk by another application.
pub fn external_change_heading(file_name: &str) -> (r: String)
    ensures
        r@ == "\""@ + file_name@ + "\" was changed by another application."@,
{
    let mut r = String::from_str("\"");
    r.append(file_name);
    r.append("\" was changed by another application.");
    r
}

/// What the external-change dialog explains and offers.
pub fn external_change_explanation() -> (r: &'static str)
    ensures
        r@
            == "Saving now could destroy those external changes. Reload the disk copy, save your local work elsewhere, or explicitly overwrite it."@,
{
    "Saving now could destroy those external changes. Reload the disk copy, save your local work elsewhere, or explicitly overwrite it."
}

/// The line of a save dialog that shows the path of the drawing.
pub fn path_line(path: &str) -> (r: String)
    ensures
        r@ == "Path: "@ + path@,
{
    let mut r = String::from_str("Path: ");
    r.append(path);
    r
}

/// The line of the file-in-use dialog that shows the error of the failed save.
pub fn details_line(error: &str) -> (r: String)
    ensures
        r@ == "Details: "@ + error@,
{
    let mut r = String::from_str("Details: ");
    r.append(error);
    r
}

/// Whether an extension names a DXF file, in any ASCII case.
pub open spec fn spec_is_dxf_extension(extension: Option<String>) -> bool {
    match extension {
        Some(e) => eq_ignore_ascii_case(e@, "dxf"@),
        None => false,
    }
}

/// Whether the drawing at `path` is a DXF file, judged by its extension in any
/// ASCII case.
pub fn has_dxf_extension(path: &str) -> (r: bool)
    ensures
        exists|extension: Option<String>|
            #[trigger] call_ensures(path_extension, (path,), extension) && r
                == spec_is_dxf_extension(extension),
{
    match path_extension(path) {
        Some(extension) => {
            let e = chars_of(extension.as_str());
            let dxf = chars_of("dxf");
            eq_ignore_ascii_case_chars(&e, &dxf)
        },
        None => false,
    }
}

/// The version a drawing's lossy Save-As warning names as its source: a DXF
/// drawing is in the version of its document, a DWG drawing in the version it
/// was read from when that is known.
pub open spec fn spec_source_version<V>(is_dxf: bool, version: V, dwg_source_version: Option<V>) -> V {
    if is_dxf {
        version
    } else {
        match dwg_source_version {
            Some(v) => v,
            None => version,
        }
    }
}

/// The version a drawing's lossy Save-As warning names as its source.
pub fn source_version<V: Copy>(is_dxf: bool, version: V, dwg_source_version: Option<V>) -> (r: V)
    ensures
        r == spec_source_version(is_dxf, version, dwg_source_version),
{
    if is_dxf {
        version
    } else {
        match dwg_source_version {
            Some(v) => v,
            None => version,
        }
    }
}

/// What the lossy Save-As warning labels the source by. For the active
/// drawing, given as its path (if it has one), the version of its document and
/// the version it was read from: the version to name and whether the drawing
/// is DXF, judged by its extension. With no active drawing there is nothing to
/// name, and the warning calls the source `DWG`.
pub fn aec_source<V: Copy>(active: Option<(Option<&str>, V, Option<V>)>) -> (r: Option<(V, bool)>)
    ensures
        active is None <==> r is None,
        active matches Some((path, version, dwg_source_version)) ==> r matches Some((v, is_dxf))
            && v == spec_source_version(is_dxf, version, dwg_source_version) && match path {
            None => !is_dxf,
            Some(p) => exists|extension: Option<String>|
                #[trigger] call_ensures(path_extension, (p,), extension) && is_dxf
                    == spec_is_dxf_extension(extension),
        },
{
    match active {
        None => None,
        Some((path, version, dwg_source_version)) => {
            let is_dxf = match path {
                Some(p) => has_dxf_extension(p),
                None => false,
            };
            Some((source_version(is_dxf, version, dwg_source_version), is_dxf))
        },
    }
}

/// The kinds of object the annotation scale dialog names.
#[derive(Clone, Copy, Debug, PartialEq, Eq, Structural)]
pub enum AnnotativeObjectKind {
    Text,
    MText,
    Insert,
    MultiLeader,
    Other,
}

/// The label of the object the annotation scale dialog edits; a dash when the
/// dialog has no object.
pub open spec fn spec_annotative_object_label(kind: Option<AnnotativeObjectKind>) -> Seq<char> {
    match kind {
        Some(AnnotativeObjectKind::Text) => "TEXT"@,
        Some(AnnotativeObjectKind::MText) => "MTEXT"@,
        Some(AnnotativeObjectKind::Insert) => "BLOCK"@,
        Some(AnnotativeObjectKind::MultiLeader) => "MULTILEADER"@,
        Some(AnnotativeObjectKind::Other) => "OBJECT"@,
        None => "\u{2014}"@,
    }
}

/// The label of the object the annotation scale dialog edits.
pub fn annotative_object_label(kind: Option<AnnotativeObjectKind>) -> (r: &'static str)
    ensures
        r@ == spec_annotative_object_label(kind),
{
    match kind {
        Some(AnnotativeObjectKind::Text) => "TEXT",
        Some(AnnotativeObjectKind::MText) => "MTEXT",
        Some(AnnotativeObjectKind::Insert) => "BLOCK",
        Some(AnnotativeObjectKind::MultiLeader) => "MULTILEADER",
        Some(AnnotativeObjectKind::Other) => "OBJECT",
        None => "\u{2014}",
    }
}

/// Whether the object has a representation at the scale whose object handle is
/// `scale_handle`, given the scale handles it is a member of; a scale without
/// an object has none.
pub fn is_scale_member(scale_handle: Option<u64>, members: &Vec<u64>) -> (r: bool)
    ensures
        r == (scale_handle matches Some(h) && members@.contains(h)),
{
    match scale_handle {
        None => false,
        Some(h) => {
            let mut i: usize = 0;
            while i < members.len()
                invariant
                    scale_handle == Some(h),
                    i <= members@.len(),
                    forall|j: int| 0 <= j < i ==> members@[j] != h,
                decreases members@.len() - i,
            {
                if members[i] == h {
                    assert(members@[i as int] == h);
                    return true;
                }
                i = i + 1;
            }
            false
        },
    }
}

/// The layer state editor's list holds exactly the line types it starts from,
/// each as often as there, and runs in the order of their lowercase forms.
pub proof fn lemma_layer_state_list_in_key_order(names: Seq<Seq<char>>, r: Seq<Seq<char>>)
    requires
        sorted_by_lowercase(names, r),
    ensures
        r.len() == names.len(),
        forall|i: int, j: int|
            0 <= i < j < r.len() ==> lex_le(
                unicode_lowercase(#[trigger] r[i]),
                unicode_lowercase(#[trigger] r[j]),
            ),
        forall|i: int| 0 <= i < r.len() ==> names.contains(#[trigger] r[i]),
        forall|k: usize| k < names.len() ==> r.contains(#[trigger] names[k as int]),
{
    let keys = lowercase_keys(names);
    let o = choose|order: Seq<usize>|
        #[trigger] is_stable_sort_order(keys, order) && r == order.map_values(
            |k: usize| names[k as int],
        );
    assert forall|i: int| 0 <= i < r.len() implies r[i] == names[o[i] as int] && o[i] < names.len() by {
    }
    assert forall|i: int, j: int| 0 <= i < j < r.len() implies lex_le(
        unicode_lowercase(#[trigger] r[i]),
        unicode_lowercase(#[trigger] r[j]),
    ) by {
        assert(lex_le(keys[o[i] as int], keys[o[j] as int]));
    }
    assert forall|i: int| 0 <= i < r.len() implies names.contains(#[trigger] r[i]) by {
        assert(names[o[i] as int] == r[i]);
    }
    assert forall|k: usize| k < names.len() implies r.contains(#[trigger] names[k as int]) by {
        assert(lists(o, k));
        let p = choose|p: int| 0 <= p < o.len() && o[p] == k;
        assert(r[p] == names[k as int]);
    }
}

/// There is a lowest index among the dirty tabs whenever one is dirty.
proof fn lemma_lowest_dirty_exists(tabs: Seq<TabSummary>)
    requires
        exists|k: int| 0 <= k < tabs.len() && #[trigger] tabs[k].dirty,
    ensures
        exists|k: int|
            0 <= k < tabs.len() && tabs[k].dirty && forall|j: int| 0 <= j < k ==> !#[trigger] tabs[j].dirty,
    decreases tabs.len(),
{
    let rest = tabs.drop_last();
    if exists|k: int| 0 <= k < rest.len() && #[trigger] rest[k].dirty {
        lemma_lowest_dirty_exists(rest);
        let k = choose|k: int|
            0 <= k < rest.len() && rest[k].dirty && forall|j: int| 0 <= j < k ==> !#[trigger] rest[j].dirty;
        assert(tabs[k] == rest[k]);
        assert forall|j: int| 0 <= j < k implies !#[trigger] tabs[j].dirty by {
            assert(tabs[j] == rest[j]);
        }
    } else {
        let k = tabs.len() - 1;
        assert forall|j: int| 0 <= j < k implies !#[trigger] tabs[j].dirty by {
            assert(tabs[j] == rest[j]);
        }
        let w = choose|w: int| 0 <= w < tabs.len() && #[trigger] tabs[w].dirty;
        if w < k {
            assert(rest[w] == tabs[w]);
        }
        assert(tabs[k].dirty);
    }
}

/// The unsaved-changes dialog asks about the tab being closed; on quitting,
/// about the dirty tab of lowest index, the first tab included; and about no
/// tab (an empty name) when the closed tab does not exist, when no tab is
/// dirty on quitting, or when nothing is being closed.
pub proof fn lemma_unsaved_dialog_names_the_right_tab(tabs: Seq<TabSummary>, i: usize)
    ensures
        i < tabs.len() ==> spec_unsaved_tab_name(Some(PendingClose::Tab(i)), tabs)
            == tabs[i as int].display_name@,
        i >= tabs.len() ==> spec_unsaved_tab_name(Some(PendingClose::Tab(i)), tabs).len() == 0,
        spec_unsaved_tab_name(None, tabs).len() == 0,
        (exists|k: int| 0 <= k < tabs.len() && #[trigger] tabs[k].dirty) ==> exists|k: int|
            0 <= k < tabs.len() && tabs[k].dirty && (forall|j: int|
                0 <= j < k ==> !#[trigger] tabs[j].dirty) && spec_unsaved_tab_name(
                Some(PendingClose::Quit),
                tabs,
            ) == tabs[k].display_name@,
        (forall|k: int| 0 <= k < tabs.len() ==> !#[trigger] tabs[k].dirty) ==> spec_unsaved_tab_name(
            Some(PendingClose::Quit),
            tabs,
        ).len() == 0,
        tabs.len() > 0 && tabs[0].dirty ==> spec_unsaved_tab_name(Some(PendingClose::Quit), tabs)
            == tabs[0].display_name@,
{
    if exists|k: int| 0 <= k < tabs.len() && #[trigger] tabs[k].dirty {
        lemma_lowest_dirty_exists(tabs);
        let k = choose|k: int|
            0 <= k < tabs.len() && tabs[k].dirty && forall|j: int| 0 <= j < k ==> !#[trigger] tabs[j].dirty;
        lemma_first_dirty(tabs, k);
        if tabs.len() > 0 && tabs[0].dirty {
            lemma_first_dirty(tabs, 0);
        }
    }
}

/// Whether `name` is the name of one of `blocks` that is not a layout, a
/// model or paper space, an external reference or overlay, or an external block.
pub open spec fn names_an_ordinary_block(blocks: Seq<BlockSummary>, name: Seq<char>) -> bool {
    exists|k: int|
        0 <= k < blocks.len() && #[trigger] blocks[k].name@ == name && !blocks[k].is_layout
            && !blocks[k].is_model_space && !blocks[k].is_paper_space && !blocks[k].is_xref
            && !blocks[k].is_xref_overlay && !blocks[k].is_external
}

/// Every choice after `Default` names one of the blocks.
proof fn lemma_dimension_option_source(blocks: Seq<BlockSummary>, i: int)
    requires
        1 <= i < spec_dimension_block_options(blocks).len(),
    ensures
        exists|k: int|
            #![trigger blocks[k]]
            0 <= k < blocks.len() && blocks[k].name@ == spec_dimension_block_options(blocks)[i]
                && is_arrowhead_block(blocks[k]),
{
    let pred = |b: BlockSummary| is_arrowhead_block(b);
    let f = blocks.filter(pred);
    assert(spec_dimension_block_options(blocks)[i] == f[i - 1].name@);
    blocks.lemma_filter_pred(pred, i - 1);
    assert(f.contains(f[i - 1]));
    blocks.lemma_filter_contains_rev(pred, f[i - 1]);
    let k = choose|k: int| 0 <= k < blocks.len() && blocks[k] == f[i - 1];
    assert(blocks[k].name@ == spec_dimension_block_options(blocks)[i]);
}

/// The dimension style dialog offers `Default` first and then exactly the
/// blocks that can serve as arrowheads: none of them a layout, a model or
/// paper space, an external reference or overlay, an external block, or an
/// anonymous block (a name starting with `*`), and every such block offered.
pub proof fn lemma_dimension_block_options(blocks: Seq<BlockSummary>)
    ensures
        spec_dimension_block_options(blocks).len() >= 1,
        spec_dimension_block_options(blocks)[0] == "Default"@,
        forall|i: int|
            1 <= i < spec_dimension_block_options(blocks).len() ==> names_an_ordinary_block(
                blocks,
                #[trigger] spec_dimension_block_options(blocks)[i],
            ),
        forall|i: int|
            1 <= i < spec_dimension_block_options(blocks).len() ==> !(
            #[trigger] spec_dimension_block_options(blocks)[i].len() > 0
                && spec_dimension_block_options(blocks)[i][0] == '*'),
        forall|k: int|
            0 <= k < blocks.len() && !blocks[k].is_layout && !blocks[k].is_model_space
                && !blocks[k].is_paper_space && !blocks[k].is_xref && !blocks[k].is_xref_overlay
                && !blocks[k].is_external && !(blocks[k].name@.len() > 0 && blocks[k].name@[0]
                == '*') ==> spec_dimension_block_options(blocks).contains(#[trigger] blocks[k].name@),
{
    let pred = |b: BlockSummary| is_arrowhead_block(b);
    let f = blocks.filter(pred);
    let r = spec_dimension_block_options(blocks);
    assert forall|i: int|
        1 <= i < spec_dimension_block_options(blocks).len() implies names_an_ordinary_block(
        blocks,
        #[trigger] spec_dimension_block_options(blocks)[i],
    ) by {
        lemma_dimension_option_source(blocks, i);
        let k = choose|k: int|
            #![trigger blocks[k]]
            0 <= k < blocks.len() && blocks[k].name@ == spec_dimension_block_options(blocks)[i]
                && is_arrowhead_block(blocks[k]);
        assert(blocks[k].name@ == spec_dimension_block_options(blocks)[i]);
    }
    assert forall|i: int| 1 <= i < r.len() implies !(#[trigger] r[i].len() > 0 && r[i][0] == '*') by {
        assert(r[i] == f[i - 1].name@);
        blocks.lemma_filter_pred(pred, i - 1);
    }
    assert forall|k: int|
        0 <= k < blocks.len() && !blocks[k].is_layout && !blocks[k].is_model_space
            && !blocks[k].is_paper_space && !blocks[k].is_xref && !blocks[k].is_xref_overlay
            && !blocks[k].is_external && !(blocks[k].name@.len() > 0 && blocks[k].name@[0]
            == '*') implies r.contains(#[trigger] blocks[k].name@) by {
        blocks.lemma_filter_contains(pred, k);
        let p = choose|p: int| 0 <= p < f.len() && f[p] == blocks[k];
        assert(r[p + 1] == f[p].name@);
    }
}

/// Distinct dialogs carry distinct title messages, so no dialog is titled as
/// another one is.
#[verifier::rlimit(100)]
pub proof fn lemma_title_messages_distinct(a: ModalKind, b: ModalKind)
    requires
        a != b,
    ensures
        spec_title_message_id(a) != spec_title_message_id(b),
{
    reveal_strlit("modal-about");
    assert("modal-about"@.len() == 11 && "modal-about"@[6] == 'a');
    reveal_strlit("modal-keyboard-shortcuts");
    assert("modal-keyboard-shortcuts"@.len() == 24 && "modal-keyboard-shortcuts"@[6] == 'k');
    reveal_strlit("modal-command-aliases");
    assert("modal-command-aliases"@.len() == 21 && "modal-command-aliases"@[6] == 'c');
    reveal_strlit("action-options");
    assert("action-options"@.len() == 14 && "action-options"@[6] == '-');
    reveal_strlit("modal-find-replace");
    assert("modal-find-replace"@.len() == 18 && "modal-find-replace"@[6] == 'f');
    reveal_strlit("modal-plugin-manager");
    assert("modal-plugin-manager"@.len() == 20 && "modal-plugin-manager"@[6] == 'p');
    reveal_strlit("modal-update-available");
    assert("modal-update-available"@.len() == 22 && "modal-update-available"@[6] == 'u');
    reveal_strlit("modal-layer-manager");
    assert("modal-layer-manager"@.len() == 19 && "modal-layer-manager"@[6] == 'l');
    reveal_strlit("modal-layer-state-manager");
    assert("modal-layer-state-manager"@.len() == 25 && "modal-layer-state-manager"@[6] == 'l');
    reveal_strlit("modal-edit-layer-state");
    assert("modal-edit-layer-state"@.len() == 22 && "modal-edit-layer-state"@[6] == 'e');
    reveal_strlit("modal-plot");
    assert("modal-plot"@.len() == 10 && "modal-plot"@[6] == 'p');
    reveal_strlit("modal-layout-manager");
    assert("modal-layout-manager"@.len() == 20 && "modal-layout-manager"@[6] == 'l');
    reveal_strlit("modal-scale-manager");
    assert("modal-scale-manager"@.len() == 19 && "modal-scale-manager"@[6] == 's');
    reveal_strlit("modal-annotation-object-scale");
    assert("modal-annotation-object-scale"@.len() == 29 && "modal-annotation-object-scale"@[6] == 'a');
    reveal_strlit("modal-plot-style-editor");
    assert("modal-plot-style-editor"@.len() == 23 && "modal-plot-style-editor"@[6] == 'p');
    reveal_strlit("modal-text-style-manager");
    assert("modal-text-style-manager"@.len() == 24 && "modal-text-style-manager"@[6] == 't');
    reveal_strlit("modal-multiline-style-manager");
    assert("modal-multiline-style-manager"@.len() == 29 && "modal-multiline-style-manager"@[6] == 'm');
    reveal_strlit("modal-table-style-manager");
    assert("modal-table-style-manager"@.len() == 25 && "modal-table-style-manager"@[6] == 't');
    reveal_strlit("modal-multileader-style-manager");
    assert("modal-multileader-style-manager"@.len() == 31 && "modal-multileader-style-manager"@[6] == 'm');
    reveal_strlit("modal-dimension-style-manager");
    assert("modal-dimension-style-manager"@.len() == 29 && "modal-dimension-style-manager"@[6] == 'd');
    reveal_strlit("modal-default-application");
    assert("modal-default-application"@.len() == 25 && "modal-default-application"@[6] == 'd');
    reveal_strlit("modal-save-warning");
    assert("modal-save-warning"@.len() == 18 && "modal-save-warning"@[6] == 's');
    reveal_strlit("modal-unable-save");
    assert("modal-unable-save"@.len() == 17 && "modal-unable-save"@[6] == 'u');
    reveal_strlit("modal-drawing-changed");
    assert("modal-drawing-changed"@.len() == 21 && "modal-drawing-changed"@[6] == 'd');
    reveal_strlit("modal-delete-layer");
    assert("modal-delete-layer"@.len() == 18 && "modal-delete-layer"@[6] == 'd');
    reveal_strlit("modal-unsaved-changes");
    assert("modal-unsaved-changes"@.len() == 21 && "modal-unsaved-changes"@[6] == 'u');
    reveal_strlit("modal-point-style");
    assert("modal-point-style"@.len() == 17 && "modal-point-style"@[6] == 'p');
    reveal_strlit("modal-attribute-editor");
    assert("modal-attribute-editor"@.len() == 22 && "modal-attribute-editor"@[6] == 'a');
    reveal_strlit("modal-save-drawing-as");
    assert("modal-save-drawing-as"@.len() == 21 && "modal-save-drawing-as"@[6] == 's');
}

/// Notices and confirmations size to their content; every dialog that holds
/// an editor or a list is capped and scrolls past its cap. The layer state
/// editor falls back to a notice when its state is gone, and the plug-in
/// manager is a notice in a browser.
pub proof fn lemma_which_dialogs_are_capped(kind: ModalKind, draft: bool, on_web: bool)
    ensures
        (spec_flow(kind, draft, on_web) == ModalFlow::Automatic) <==> (kind == ModalKind::About
            || kind == ModalKind::FindReplace || kind == ModalKind::AssocPrompt || kind
            == ModalKind::AecDropWarning || kind == ModalKind::FileInUse || kind
            == ModalKind::ExternalChange || kind == ModalKind::LayerDeleteWarning || kind
            == ModalKind::Unsaved || kind == ModalKind::SaveDialog || (kind
            == ModalKind::LayerStateEditor && !draft) || (kind == ModalKind::PluginManager
            && on_web)),
        spec_flow(kind, draft, on_web) matches ModalFlow::Sized { max_width, max_height } ==> 360
            <= max_width <= 1180 && 320 <= max_height <= 600,
{
}

/// The cap of each capped dialog, whatever the draft and web flags are.
pub proof fn lemma_dialog_caps(draft: bool, on_web: bool)
    ensures
        spec_flow(ModalKind::Shortcuts, draft, on_web) == (ModalFlow::Sized { max_width: 720, max_height: 520 }),
        spec_flow(ModalKind::Aliases, draft, on_web) == (ModalFlow::Sized { max_width: 480, max_height: 520 }),
        spec_flow(ModalKind::Options, draft, on_web) == (ModalFlow::Sized { max_width: 520, max_height: 500 }),
        !on_web ==> spec_flow(ModalKind::PluginManager, draft, on_web) == (ModalFlow::Sized { max_width: 940, max_height: 600 }),
        spec_flow(ModalKind::UpdateNotice, draft, on_web) == (ModalFlow::Sized { max_width: 560, max_height: 460 }),
        spec_flow(ModalKind::Layers, draft, on_web) == (ModalFlow::Sized { max_width: 900, max_height: 360 }),
        spec_flow(ModalKind::LayerStateManager, draft, on_web) == (ModalFlow::Sized { max_width: 720, max_height: 420 }),
        draft ==> spec_flow(ModalKind::LayerStateEditor, draft, on_web) == (ModalFlow::Sized { max_width: 1180, max_height: 560 }),
        spec_flow(ModalKind::Plot, draft, on_web) == (ModalFlow::Sized { max_width: 760, max_height: 540 }),
        spec_flow(ModalKind::LayoutManager, draft, on_web) == (ModalFlow::Sized { max_width: 640, max_height: 320 }),
        spec_flow(ModalKind::ScaleManager, draft, on_web) == (ModalFlow::Sized { max_width: 520, max_height: 360 }),
        spec_flow(ModalKind::AnnoObjectScale, draft, on_web) == (ModalFlow::Sized { max_width: 360, max_height: 420 }),
        spec_flow(ModalKind::Plotstyle, draft, on_web) == (ModalFlow::Sized { max_width: 780, max_height: 540 }),
        spec_flow(ModalKind::TextStyle, draft, on_web) == (ModalFlow::Sized { max_width: 860, max_height: 480 }),
        spec_flow(ModalKind::MlStyle, draft, on_web) == (ModalFlow::Sized { max_width: 620, max_height: 420 }),
        spec_flow(ModalKind::TableStyle, draft, on_web) == (ModalFlow::Sized { max_width: 620, max_height: 420 }),
        spec_flow(ModalKind::MLeaderStyle, draft, on_web) == (ModalFlow::Sized { max_width: 560, max_height: 560 }),
        spec_flow(ModalKind::DimStyle, draft, on_web) == (ModalFlow::Sized { max_width: 720, max_height: 560 }),
        spec_flow(ModalKind::PointStyle, draft, on_web) == (ModalFlow::Sized { max_width: 360, max_height: 470 }),
        spec_flow(ModalKind::AttributeEditor, draft, on_web) == (ModalFlow::Sized { max_width: 640, max_height: 500 }),
{
}

/// The attribute editor offers `ByLayer` first, then exactly the drawing's
/// named line types other than `ByLayer`, each taken from the drawing.
pub proof fn lemma_attribute_editor_linetypes(names: Seq<Seq<char>>)
    ensures
        spec_attribute_editor_linetypes(names).len() >= 1,
        spec_attribute_editor_linetypes(names)[0] == "ByLayer"@,
        forall|i: int|
            1 <= i < spec_attribute_editor_linetypes(names).len() ==> {
                let n = #[trigger] spec_attribute_editor_linetypes(names)[i];
                &&& n.len() > 0
                &&& n != "ByLayer"@
                &&& names.contains(n)
            },
        forall|k: int|
            0 <= k < names.len() && names[k].len() > 0 && names[k] != "ByLayer"@
                ==> spec_attribute_editor_linetypes(names).contains(#[trigger] names[k]),
{
    let pred = |name: Seq<char>| is_listed_linetype(name);
    let f = names.filter(pred);
    let r = spec_attribute_editor_linetypes(names);
    assert forall|i: int| 1 <= i < r.len() implies {
        let n = #[trigger] r[i];
        &&& n.len() > 0
        &&& n != "ByLayer"@
        &&& names.contains(n)
    } by {
        assert(r[i] == f[i - 1]);
        names.lemma_filter_pred(pred, i - 1);
        assert(f.contains(f[i - 1]));
        names.lemma_filter_contains_rev(pred, f[i - 1]);
    }
    assert forall|k: int|
        0 <= k < names.len() && names[k].len() > 0 && names[k] != "ByLayer"@ implies r.contains(
        #[trigger] names[k],
    ) by {
        names.lemma_filter_contains(pred, k);
        let p = choose|p: int| 0 <= p < f.len() && f[p] == names[k];
        assert(r[p + 1] == f[p]);
    }
}

/// The attribute editor lists text style names trimmed: every entry is the
/// trimmed name of one of the drawing's styles, never blank, and every style
/// whose trimmed name is not blank is listed.
pub proof fn lemma_attribute_editor_text_styles(names: Seq<Seq<char>>)
    ensures
        forall|i: int|
            0 <= i < spec_attribute_editor_text_styles(names).len() ==> {
                let n = #[trigger] spec_attribute_editor_text_styles(names)[i];
                &&& n.len() > 0
                &&& exists|k: int| 0 <= k < names.len() && trim(#[trigger] names[k]) == n
            },
        forall|k: int|
            0 <= k < names.len() && trim(names[k]).len() > 0
                ==> spec_attribute_editor_text_styles(names).contains(trim(#[trigger] names[k])),
{
    let f = |name: Seq<char>| listed_text_style(name);
    let r = spec_attribute_editor_text_styles(names);
    assert forall|i: int| 0 <= i < r.len() implies {
        let n = #[trigger] r[i];
        &&& n.len() > 0
        &&& exists|k: int| 0 <= k < names.len() && trim(#[trigger] names[k]) == n
    } by {
        assert(r.contains(r[i]));
        names.lemma_filter_map_contains(f, r[i]);
        let k = choose|k: int| 0 <= k < names.len() && f(names[k]) == Some(r[i]);
        assert(trim(names[k]) == r[i]);
    }
    assert forall|k: int| 0 <= k < names.len() && trim(names[k]).len() > 0 implies r.contains(
        trim(#[trigger] names[k]),
    ) by {
        lemma_filter_map_keeps(names, k);
    }
}

/// An element that `listed_text_style` keeps reaches the list.
proof fn lemma_filter_map_keeps(names: Seq<Seq<char>>, k: int)
    requires
        0 <= k < names.len(),
        trim(names[k]).len() > 0,
    ensures
        spec_attribute_editor_text_styles(names).contains(trim(names[k])),
    decreases names.len(),
{
    let rest = names.drop_last();
    let r = spec_attribute_editor_text_styles(names);
    assert(r == spec_attribute_editor_text_styles(rest) + match listed_text_style(names.last()) {
        Some(t) => seq![t],
        None => Seq::empty(),
    });
    if k == names.len() - 1 {
        assert(r[r.len() - 1] == trim(names[k]));
    } else {
        assert(rest[k] == names[k]);
        lemma_filter_map_keeps(rest, k);
        let p = choose|p: int|
            0 <= p < spec_attribute_editor_text_styles(rest).len()
                && spec_attribute_editor_text_styles(rest)[p] == trim(names[k]);
        assert(r[p] == trim(names[k]));
    }
}

/// A style dialog names a referenced record by the first record with its
/// handle, and falls back to `default` when there is no reference or no
/// record with the handle.
pub proof fn lemma_name_for_handle(records: Seq<NamedHandle>, h: u64, default: Seq<char>)
    ensures
        spec_name_for_handle(records, None, default) == default,
        (forall|k: int| 0 <= k < records.len() ==> #[trigger] records[k].handle != h)
            ==> spec_name_for_handle(records, Some(h), default) == default,
        (exists|k: int| 0 <= k < records.len() && #[trigger] records[k].handle == h) ==> exists|k: int|
            0 <= k < records.len() && records[k].handle == h && (forall|j: int|
                0 <= j < k ==> #[trigger] records[j].handle != h) && spec_name_for_handle(
                records,
                Some(h),
                default,
            ) == records[k].name@,
{
    if exists|k: int| 0 <= k < records.len() && #[trigger] records[k].handle == h {
        lemma_lowest_handle_exists(records, h);
        let k = choose|k: int|
            0 <= k < records.len() && records[k].handle == h && forall|j: int|
                0 <= j < k ==> #[trigger] records[j].handle != h;
        lemma_first_with_handle(records, h, k);
    }
}

/// There is a lowest index among the records with a handle whenever one has it.
proof fn lemma_lowest_handle_exists(records: Seq<NamedHandle>, h: u64)
    requires
        exists|k: int| 0 <= k < records.len() && #[trigger] records[k].handle == h,
    ensures
        exists|k: int|
            0 <= k < records.len() && records[k].handle == h && forall|j: int|
                0 <= j < k ==> #[trigger] records[j].handle != h,
    decreases records.len(),
{
    let rest = records.drop_last();
    if exists|k: int| 0 <= k < rest.len() && #[trigger] rest[k].handle == h {
        lemma_lowest_handle_exists(rest, h);
        let k = choose|k: int|
            0 <= k < rest.len() && rest[k].handle == h && forall|j: int|
                0 <= j < k ==> #[trigger] rest[j].handle != h;
        assert(records[k] == rest[k]);
        assert forall|j: int| 0 <= j < k implies #[trigger] records[j].handle != h by {
            assert(records[j] == rest[j]);
        }
    } else {
        let k = records.len() - 1;
        assert forall|j: int| 0 <= j < k implies #[trigger] records[j].handle != h by {
            assert(records[j] == rest[j]);
        }
        let w = choose|w: int| 0 <= w < records.len() && #[trigger] records[w].handle == h;
        if w < k {
            assert(rest[w] == records[w]);
        }
        assert(records[k].handle == h);
    }
}

} // verus!
