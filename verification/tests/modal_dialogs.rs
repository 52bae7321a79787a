use i18n_embed::fluent::FluentLanguageLoader;
use open_cad_studio::modal::{
    aec_drop_text, attribute_editor_linetypes, attribute_editor_text_styles,
    layer_delete_warning_text, layer_state_editor_linetypes, unsaved_changes_text, ModalFlow, ModalKind, OpenCADStudio,
    PendingClose, TabSummary, BlockSummary, NamedHandle, dimension_block_options, name_for_handle,
    options_headed_by, missing_layer_state_notice, displayed_file_name, file_in_use_heading,
    file_in_use_explanation, path_line, details_line, external_change_heading,
    external_change_explanation, has_dxf_extension, source_version, annotative_object_label,
    AnnotativeObjectKind, is_scale_member, aec_source,
};
use open_cad_studio::text::{decimal_string, str_equals};

fn studio(active_modal: Option<ModalKind>) -> OpenCADStudio {
    OpenCADStudio {
        active_modal,
        layer_state_draft_present: false,
        pending_close: None,
        tabs: Vec::new(),
    }
}

fn tab(name: &str, dirty: bool) -> TabSummary {
    TabSummary { display_name: name.to_string(), dirty }
}

fn strings(names: &[&str]) -> Vec<String> {
    names.iter().map(|n| n.to_string()).collect()
}

#[test]
fn no_modal_has_an_empty_title() {
    let loader = FluentLanguageLoader::new("open_cad_studio", "en-US".parse().unwrap());
    assert_eq!(studio(None).modal_title(&loader), "");
    assert_eq!(studio(None).modal_flow(false), None);
}

#[test]
fn the_open_modal_is_titled_by_its_message() {
    let loader = FluentLanguageLoader::new("open_cad_studio", "en-US".parse().unwrap());
    assert_eq!(
        studio(Some(ModalKind::About)).modal_title(&loader),
        "No localization for id: \"modal-about\""
    );
}

#[test]
fn modals_have_title_messages() {
    assert_eq!(ModalKind::Options.title_message_id(), "action-options");
    assert_eq!(ModalKind::Shortcuts.title_message_id(), "modal-keyboard-shortcuts");
    assert_eq!(ModalKind::FileInUse.title_message_id(), "modal-unable-save");
    assert_eq!(ModalKind::SaveDialog.title_message_id(), "modal-save-drawing-as");
    assert_eq!(ModalKind::AnnoObjectScale.title_message_id(), "modal-annotation-object-scale");
}

#[test]
fn modals_ask_for_their_room() {
    assert_eq!(ModalKind::About.flow(false, false), ModalFlow::Automatic);
    assert_eq!(
        ModalKind::PluginManager.flow(false, false),
        ModalFlow::Sized { max_width: 940, max_height: 600 }
    );
    assert_eq!(
        ModalKind::LayerStateEditor.flow(true, false),
        ModalFlow::Sized { max_width: 1180, max_height: 560 }
    );
    assert_eq!(ModalKind::LayerStateEditor.flow(false, false), ModalFlow::Automatic);
    assert_eq!(ModalKind::PluginManager.flow(false, true), ModalFlow::Automatic);
    assert_eq!(ModalKind::Layers.flow(false, true), ModalFlow::Sized { max_width: 900, max_height: 360 });
    assert_eq!(
        missing_layer_state_notice(),
        "The selected layer state is no longer available."
    );
    let mut s = studio(Some(ModalKind::PointStyle));
    assert_eq!(s.modal_flow(false), Some(ModalFlow::Sized { max_width: 360, max_height: 470 }));
    s.active_modal = Some(ModalKind::LayerStateEditor);
    s.layer_state_draft_present = true;
    assert_eq!(s.modal_flow(false), Some(ModalFlow::Sized { max_width: 1180, max_height: 560 }));
}

#[test]
fn unsaved_dialog_names_the_tab_being_closed() {
    let mut s = studio(Some(ModalKind::Unsaved));
    s.tabs = vec![tab("a.dwg", false), tab("b.dwg", true), tab("c.dwg", true)];
    s.pending_close = Some(PendingClose::Tab(0));
    assert_eq!(s.unsaved_tab_name(), "a.dwg");
    s.pending_close = Some(PendingClose::Tab(7));
    assert_eq!(s.unsaved_tab_name(), "");
    s.pending_close = Some(PendingClose::Quit);
    assert_eq!(s.unsaved_tab_name(), "b.dwg");
    s.pending_close = None;
    assert_eq!(s.unsaved_tab_name(), "");
    s.pending_close = Some(PendingClose::Quit);
    s.tabs = vec![tab("a.dwg", false)];
    assert_eq!(s.unsaved_tab_name(), "");
}

#[test]
fn unsaved_dialog_asks_about_the_tab() {
    assert_eq!(
        unsaved_changes_text("plan.dwg"),
        "Do you want to save changes to \"plan.dwg\"?"
    );
}

#[test]
fn aec_warning_names_count_target_and_source() {
    assert_eq!(
        aec_drop_text(12, "DXF 2018", "DWG 2013"),
        "This drawing contains 12 AEC/Civil objects that \"DXF 2018\" cannot store, so they will not be saved.\n\nTo keep them, save in the source version (DWG 2013)."
    );
}

#[test]
fn layer_delete_warning_for_one_layer_and_one_object() {
    assert_eq!(
        layer_delete_warning_text(&strings(&["Walls"]), 1),
        "Layer \"Walls\" still has 1 object.\n\nDeleting will also remove that object from the drawing. Continue?"
    );
}

#[test]
fn layer_delete_warning_for_several_layers_and_objects() {
    assert_eq!(
        layer_delete_warning_text(&strings(&["Walls", "Doors", "Hatch"]), 42),
        "3 selected layers still hold 42 objects.\n\nDeleting will also remove those objects from the drawing. Continue?"
    );
    assert_eq!(
        layer_delete_warning_text(&strings(&["Walls"]), 0),
        "Layer \"Walls\" still has 0 objects.\n\nDeleting will also remove those objects from the drawing. Continue?"
    );
    assert_eq!(
        layer_delete_warning_text(&Vec::new(), 0),
        "0 selected layers still hold 0 objects.\n\nDeleting will also remove those objects from the drawing. Continue?"
    );
}

#[test]
fn attribute_editor_lists_by_layer_first() {
    assert_eq!(
        attribute_editor_linetypes(&strings(&["Continuous", "", "ByLayer", "HIDDEN", "ByBlock"])),
        strings(&["ByLayer", "Continuous", "HIDDEN", "ByBlock"])
    );
    assert_eq!(attribute_editor_linetypes(&Vec::new()), strings(&["ByLayer"]));
}

#[test]
fn attribute_editor_lists_trimmed_text_styles() {
    assert_eq!(
        attribute_editor_text_styles(&strings(&[" Standard ", "   ", "", "Annotative"])),
        strings(&["Standard", "Annotative"])
    );
}

#[test]
fn numbers_are_written_in_decimal() {
    assert_eq!(decimal_string(0), "0");
    assert_eq!(decimal_string(9), "9");
    assert_eq!(decimal_string(10), "10");
    assert_eq!(decimal_string(1234567890), "1234567890");
    assert_eq!(decimal_string(usize::MAX), usize::MAX.to_string());
}

#[test]
fn strings_compare_by_characters() {
    assert!(str_equals("ByLayer", "ByLayer"));
    assert!(!str_equals("ByLayer", "bylayer"));
    assert!(!str_equals("ab", "abc"));
    assert!(str_equals("", ""));
}

#[test]
fn layer_state_editor_merges_and_sorts_line_types() {
    assert_eq!(
        layer_state_editor_linetypes(
            &strings(&["HIDDEN", "Continuous", "dashed"]),
            &strings(&["continuous", "", "Center", "DASHDOT", "center"]),
        ),
        strings(&["Center", "Continuous", "DASHDOT", "dashed", "HIDDEN"])
    );
}

#[test]
fn layer_state_editor_keeps_equal_keys_in_order() {
    assert_eq!(
        layer_state_editor_linetypes(&strings(&["b", "B", "a"]), &Vec::new()),
        strings(&["a", "b", "B"])
    );
    assert_eq!(
        layer_state_editor_linetypes(&Vec::new(), &strings(&["Ä", "z", "ä"])),
        strings(&["z", "Ä", "ä"])
    );
    assert_eq!(layer_state_editor_linetypes(&Vec::new(), &Vec::new()), Vec::<String>::new());
}

fn block(name: &str, handle: u64) -> BlockSummary {
    BlockSummary {
        name: name.to_string(),
        handle,
        is_layout: false,
        is_model_space: false,
        is_paper_space: false,
        is_xref: false,
        is_xref_overlay: false,
        is_external: false,
    }
}

#[test]
fn dimension_blocks_leave_out_spaces_xrefs_and_anonymous_blocks() {
    let mut model = block("*Model_Space", 1);
    model.is_model_space = true;
    let mut paper = block("*Paper_Space", 2);
    paper.is_paper_space = true;
    let mut layout = block("Layout1", 3);
    layout.is_layout = true;
    let mut xref = block("Site", 4);
    xref.is_xref = true;
    let mut overlay = block("Survey", 5);
    overlay.is_xref_overlay = true;
    let mut external = block("Grid", 6);
    external.is_external = true;
    let blocks = vec![
        model,
        block("_ArchTick", 7),
        paper,
        layout,
        xref,
        overlay,
        external,
        block("*U12", 8),
        block("Dot", 9),
    ];
    assert_eq!(dimension_block_options(&blocks), strings(&["Default", "_ArchTick", "Dot"]));
    assert_eq!(dimension_block_options(&Vec::new()), strings(&["Default"]));
}

#[test]
fn referenced_records_are_named_by_handle() {
    let records = vec![
        NamedHandle { name: "Standard".to_string(), handle: 17 },
        NamedHandle { name: "Notes".to_string(), handle: 42 },
        NamedHandle { name: "Shadow".to_string(), handle: 42 },
    ];
    assert_eq!(name_for_handle(&records, Some(42), "None"), "Notes");
    assert_eq!(name_for_handle(&records, Some(17), "None"), "Standard");
    assert_eq!(name_for_handle(&records, Some(99), "None"), "None");
    assert_eq!(name_for_handle(&records, None, "Default"), "Default");
}

#[test]
fn choice_lists_are_headed_by_their_default() {
    assert_eq!(
        options_headed_by("ByBlock", &strings(&["Continuous", "HIDDEN"])),
        strings(&["ByBlock", "Continuous", "HIDDEN"])
    );
    assert_eq!(options_headed_by("None", &Vec::new()), strings(&["None"]));
}

#[test]
fn save_dialogs_name_the_drawing_by_its_file_name() {
    assert_eq!(displayed_file_name("/home/cad/plans/site plan.dwg"), "site plan.dwg");
    assert_eq!(displayed_file_name("plan.dxf"), "plan.dxf");
    assert_eq!(displayed_file_name(""), "Drawing");
    assert_eq!(displayed_file_name("/"), "Drawing");
    assert_eq!(displayed_file_name("plans/.."), "Drawing");
}

#[test]
fn file_in_use_dialog_texts() {
    assert_eq!(file_in_use_heading("plan.dwg"), "\"plan.dwg\" could not be saved.");
    assert_eq!(
        file_in_use_explanation(),
        "The file is open or being used by another application. Close it there and retry, or save this drawing under a different name."
    );
    assert_eq!(path_line("/tmp/plan.dwg"), "Path: /tmp/plan.dwg");
    assert_eq!(details_line("Access is denied."), "Details: Access is denied.");
}

#[test]
fn external_change_dialog_texts() {
    assert_eq!(
        external_change_heading("plan.dwg"),
        "\"plan.dwg\" was changed by another application."
    );
    assert_eq!(
        external_change_explanation(),
        "Saving now could destroy those external changes. Reload the disk copy, save your local work elsewhere, or explicitly overwrite it."
    );
}

#[test]
fn dxf_drawings_are_told_by_extension() {
    assert!(has_dxf_extension("plans/site.dxf"));
    assert!(has_dxf_extension("plans/site.DXF"));
    assert!(has_dxf_extension("site.DxF"));
    assert!(!has_dxf_extension("site.dwg"));
    assert!(!has_dxf_extension("dxf"));
    assert!(!has_dxf_extension(".dxf"));
    assert!(!has_dxf_extension("site.dxfx"));
}

#[test]
fn the_source_version_of_a_dwg_is_the_version_it_was_read_from() {
    assert_eq!(source_version(false, 2018u32, Some(2010u32)), 2010);
    assert_eq!(source_version(false, 2018u32, None), 2018);
    assert_eq!(source_version(true, 2018u32, Some(2010u32)), 2018);
}

#[test]
fn annotation_scale_dialog_labels_its_object() {
    assert_eq!(annotative_object_label(Some(AnnotativeObjectKind::Text)), "TEXT");
    assert_eq!(annotative_object_label(Some(AnnotativeObjectKind::MText)), "MTEXT");
    assert_eq!(annotative_object_label(Some(AnnotativeObjectKind::Insert)), "BLOCK");
    assert_eq!(annotative_object_label(Some(AnnotativeObjectKind::MultiLeader)), "MULTILEADER");
    assert_eq!(annotative_object_label(Some(AnnotativeObjectKind::Other)), "OBJECT");
    assert_eq!(annotative_object_label(None), "\u{2014}");
}

#[test]
fn scale_membership_needs_a_scale_object() {
    let members = vec![5u64, 9, 12];
    assert!(is_scale_member(Some(9), &members));
    assert!(!is_scale_member(Some(7), &members));
    assert!(!is_scale_member(None, &members));
    assert!(!is_scale_member(Some(9), &Vec::new()));
}

#[test]
fn aec_warning_labels_the_active_drawing_or_dwg() {
    assert_eq!(aec_source::<u32>(None), None);
    assert_eq!(aec_source(Some((Some("plans/site.DXF"), 2018u32, Some(2010u32)))), Some((2018, true)));
    assert_eq!(aec_source(Some((Some("plans/site.dwg"), 2018u32, Some(2010u32)))), Some((2010, false)));
    assert_eq!(aec_source(Some((None, 2018u32, Some(2010u32)))), Some((2010, false)));
    assert_eq!(aec_source(Some((Some("site.dwg"), 2018u32, None))), Some((2018, false)));
}
