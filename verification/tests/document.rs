use quick_look::document::{Document, DocumentAction, PageFile, PreviewProps};
use quick_look::process::Process;

fn file(name: &str, content: &[u8]) -> PageFile {
    PageFile { name: name.to_string(), path: format!("/cache/doc/{}", name), content: content.to_vec() }
}

#[test]
fn renderer_is_chosen_by_the_suffix() {
    assert_eq!(Document::with_response(&Process::get_response("a.pdf")), DocumentAction::Pdf);
    assert_eq!(Document::with_response(&Process::get_response("a.PDF")), DocumentAction::Pdf);
    assert_eq!(Document::with_response(&Process::get_response("a.docx")), DocumentAction::Docx);
    assert_eq!(Document::with_response(&Process::get_response("a.doc")), DocumentAction::Unchanged);
    assert_eq!(Document::with_response(&Process::get_response("a.pptx")), DocumentAction::Unchanged);
}

#[test]
fn pages_are_named_by_their_index() {
    assert_eq!(Document::page_file_name(0), "page-0.png");
    assert_eq!(Document::page_file_name(7), "page-7.png");
    assert_eq!(Document::page_file_name(10), "page-10.png");
    assert_eq!(Document::page_file_name(1234), "page-1234.png");
}

#[test]
fn only_pages_are_read_as_pictures() {
    let files = vec![
        file("page-0.png", b"hello"),
        file("a.pdf", b"%PDF"),
        file("preview.json", b"{}"),
        file("page-1.png", b""),
        file("xpage-2.png", b"no"),
    ];
    let pictures = Document::read_pictures(&files);
    assert_eq!(
        pictures,
        vec![
            PreviewProps {
                name: "page-0.png".to_string(),
                path: "/cache/doc/page-0.png".to_string(),
                content: "data:image/png;base64,aGVsbG8=".to_string(),
            },
            PreviewProps {
                name: "page-1.png".to_string(),
                path: "/cache/doc/page-1.png".to_string(),
                content: "data:image/png;base64,".to_string(),
            },
        ]
    );
    assert!(Document::read_pictures(&Vec::new()).is_empty());
}

#[test]
fn rendered_document_becomes_a_manifest() {
    let response = Process::get_response("paper.pdf");
    let res = Document::prepare(response, "[]".to_string());
    assert_eq!(res.code, 200);
    assert_eq!(res.body, "[]");
    assert_eq!(res.suffix_props.name, "pdf");
    assert_eq!(res.suffix_props._type, "preview");
    assert_eq!(res.suffix_props.list, vec!["pdf"]);
    assert_eq!(res.file_props.name, "paper.pdf");
}
