use dithering::labels::{shortcut, Shortcut};
use dithering::viewer::{ImageVariant, ViewImageId};
use dithering::{
    DecodedImage, DocumentId, ProcessingEvent, Raster, ResultView, Revision, Session,
    SourceFormat, Status,
};

fn decoded() -> DecodedImage {
    DecodedImage {
        raster: Raster::new(1, 1, vec![0, 0, 0, 255]).expect("valid fixture"),
        format: SourceFormat::Png,
    }
}

#[test]
fn keep_settings_starts_disabled() {
    let session = Session::new();
    assert!(!session.keep_settings);
}

#[test]
fn a_successful_load_resets_settings_by_default() {
    let mut session = Session::new();
    session.settings.scale = 4;

    session.open(
        "entrada.png".to_owned(),
        Some("entrada.png".into()),
        decoded(),
    );

    assert_eq!(session.settings.scale, 1);
}

#[test]
fn a_successful_load_keeps_settings_when_selected() {
    let mut session = Session::new();
    session.keep_settings = true;
    session.settings.scale = 4;

    session.open(
        "entrada.png".to_owned(),
        Some("entrada.png".into()),
        decoded(),
    );

    assert_eq!(session.settings.scale, 4);
}

#[test]
fn documents_are_numbered_from_one() {
    let mut session = Session::new();
    let first = session.open("a.png".to_owned(), None, decoded());
    let second = session.open("b.png".to_owned(), None, decoded());
    assert_eq!(first, DocumentId::new(1));
    assert_eq!(second, DocumentId::new(2));
    assert_eq!(session.next_document_id, 3);
    assert_eq!(
        session.state.document.as_ref().expect("document is open").id,
        DocumentId::new(2)
    );
}

#[test]
fn only_the_latest_load_is_applied() {
    let mut session = Session::new();
    let first = session.begin_load();
    let second = session.begin_load();
    assert_eq!((first, second), (1, 2));
    assert_eq!(session.state.status, Status::Loading);

    let stale = session.load_finished(first, "old.png".to_owned(), None, Ok(decoded()));
    assert_eq!(stale, None);
    assert!(session.state.document.is_none());
    assert_eq!(session.state.status, Status::Loading);

    let opened = session.load_finished(second, "new.png".to_owned(), None, Ok(decoded()));
    assert_eq!(opened, Some(DocumentId::new(1)));
    assert_eq!(
        session.state.document.as_ref().expect("document is open").name,
        "new.png"
    );
}

#[test]
fn a_failed_load_reports_and_keeps_the_document() {
    let mut session = Session::new();
    session.open("a.png".to_owned(), None, decoded());
    let generation = session.begin_load();
    let opened = session.load_finished(
        generation,
        "b.png".to_owned(),
        None,
        Err(("No se pudo abrir la imagen".to_owned(), "detalle".to_owned())),
    );
    assert_eq!(opened, None);
    assert_eq!(
        session.state.status,
        Status::LoadFailed("No se pudo abrir la imagen".to_owned())
    );
    assert_eq!(session.state.error_details.as_deref(), Some("detalle"));
    assert_eq!(
        session.state.document.as_ref().expect("document is kept").name,
        "a.png"
    );
}

fn session_with_result() -> Session {
    let mut session = Session::new();
    let id = session.open("a.png".to_owned(), None, decoded());
    assert!(session.state.apply_processing_event(ProcessingEvent::Completed {
        document_id: id,
        revision: Revision::new(1),
        raster: decoded().raster,
    }));
    session
}

#[test]
fn a_save_of_the_current_revision_finishes() {
    let mut session = session_with_result();
    session.state.save_started();
    assert_eq!(session.state.status, Status::Saving);
    assert!(!session.settings_enabled());

    assert!(session.save_finished(DocumentId::new(1), Revision::new(1), Ok(())));
    assert_eq!(session.state.status, Status::ResultReady);
    assert!(session.settings_enabled());
}

#[test]
fn a_save_of_another_revision_is_ignored() {
    let mut session = session_with_result();
    session.state.save_started();
    assert!(!session.save_finished(DocumentId::new(1), Revision::new(2), Ok(())));
    assert!(!session.save_finished(DocumentId::new(2), Revision::new(1), Ok(())));
    assert_eq!(session.state.status, Status::Saving);
}

#[test]
fn a_failed_save_reports_its_details() {
    let mut session = session_with_result();
    session.state.save_started();
    assert!(session.save_finished(
        DocumentId::new(1),
        Revision::new(1),
        Err("disco lleno".to_owned())
    ));
    assert_eq!(
        session.state.status,
        Status::SaveFailed("No se pudo guardar la imagen".to_owned())
    );
    assert_eq!(session.state.error_details.as_deref(), Some("disco lleno"));
    assert!(session.state.can_save());
}

#[test]
fn settings_are_disabled_without_a_document_and_while_loading() {
    let mut session = Session::new();
    assert!(!session.settings_enabled());
    session.open("a.png".to_owned(), None, decoded());
    assert!(session.settings_enabled());
    session.begin_load();
    assert!(!session.settings_enabled());
}

#[test]
fn the_viewer_shows_the_source_until_a_result_exists() {
    let mut session = Session::new();
    assert!(session.state.displayed_image().is_none());
    session.open("a.png".to_owned(), None, decoded());
    let (id, _) = session.state.displayed_image().expect("an image is shown");
    assert_eq!(
        id,
        ViewImageId {
            document: 1,
            revision: 0,
            variant: ImageVariant::Original,
        }
    );

    let mut session = session_with_result();
    let (id, _) = session.state.displayed_image().expect("an image is shown");
    assert_eq!(
        id,
        ViewImageId {
            document: 1,
            revision: 1,
            variant: ImageVariant::Result,
        }
    );
    session.state.view = ResultView::Original;
    let (id, _) = session.state.displayed_image().expect("an image is shown");
    assert_eq!(id.variant, ImageVariant::Original);
    assert_eq!(id.revision, 0);
}

#[test]
fn paste_wins_over_the_other_shortcuts_and_text_input_blocks_them() {
    assert_eq!(shortcut(false, true, true, true, true, true), Some(Shortcut::Paste));
    assert_eq!(shortcut(false, false, true, true, false, false), Some(Shortcut::Open));
    assert_eq!(shortcut(false, false, false, true, true, false), Some(Shortcut::Save));
    assert_eq!(shortcut(false, false, false, false, true, true), Some(Shortcut::Fit));
    assert_eq!(shortcut(false, false, false, false, false, true), Some(Shortcut::ActualSize));
    assert_eq!(shortcut(false, false, false, false, false, false), None);
    assert_eq!(shortcut(true, true, true, true, true, true), None);
}
