use cooking_fetch::artifact::{
    document_result, document_step, extract_args, image_base, image_result, image_step,
    is_image_file, last_reported_file, matching_image, pdf_path, render_args, CacheStep, ExtractError,
};
use cooking_fetch::recipe::Recipe;

fn cake() -> Recipe {
    Recipe { id: Some(2), name: "Cake".to_string(), page_start: 3, page_end: 5, has_picture: true }
}

#[test]
fn document_path_is_derived_from_name() {
    assert_eq!(pdf_path("Cake"), "/tmp/cooking-fetch/pdfs/Cake.pdf");
    assert_eq!(pdf_path("Apple pie"), "/tmp/cooking-fetch/pdfs/Apple pie.pdf");
}

#[test]
fn image_base_is_derived_from_name() {
    assert_eq!(image_base("Cake"), "/tmp/cooking-fetch/images/Cake");
}

#[test]
fn extraction_arguments() {
    assert_eq!(
        extract_args(&cake()),
        vec!["assets/book.pdf", "cat", "3-5", "output", "/tmp/cooking-fetch/pdfs/Cake.pdf"]
    );
    let r = Recipe { id: Some(1), name: "X".to_string(), page_start: -7, page_end: 120, has_picture: false };
    assert_eq!(extract_args(&r)[2], "-7-120");
    let r = Recipe { id: Some(1), name: "X".to_string(), page_start: i32::MIN, page_end: i32::MAX, has_picture: false };
    assert_eq!(extract_args(&r)[2], "-2147483648-2147483647");
}

#[test]
fn rendering_arguments() {
    assert_eq!(render_args("doc.pdf", "base"), vec!["-png", "-print-filenames", "doc.pdf", "base"]);
}

#[test]
fn present_document_is_reused() {
    match document_step(&cake(), true) {
        CacheStep::Reuse(p) => assert_eq!(p, "/tmp/cooking-fetch/pdfs/Cake.pdf"),
        other => panic!("unexpected {:?}", other),
    }
}

#[test]
fn absent_document_runs_extraction() {
    match document_step(&cake(), false) {
        CacheStep::Run(run) => {
            assert_eq!(run.program, "pdftk");
            assert_eq!(run.args[4], "/tmp/cooking-fetch/pdfs/Cake.pdf");
        }
        other => panic!("unexpected {:?}", other),
    }
}

#[test]
fn repeated_document_requests_run_once() {
    let mut present = false;
    let mut runs = 0;
    let mut paths = Vec::new();
    for _ in 0..3 {
        match document_step(&cake(), present) {
            CacheStep::Reuse(p) => paths.push(p),
            CacheStep::Run(_) => {
                runs += 1;
                present = true;
                paths.push(document_result(&cake(), true, true, String::new()).unwrap());
            }
        }
    }
    assert_eq!(runs, 1);
    assert!(paths.iter().all(|p| p == "/tmp/cooking-fetch/pdfs/Cake.pdf"));
}

#[test]
fn document_outcomes() {
    assert!(matches!(document_result(&cake(), false, false, String::new()), Err(ExtractError::ToolUnavailable)));
    match document_result(&cake(), true, false, "boom".to_string()) {
        Err(ExtractError::ToolFailed(e)) => assert_eq!(e, "boom"),
        other => panic!("unexpected {:?}", other),
    }
    assert_eq!(document_result(&cake(), true, true, String::new()).unwrap(), "/tmp/cooking-fetch/pdfs/Cake.pdf");
}

#[test]
fn existing_image_is_reused() {
    let files = vec!["Cake-Pie-000.png".to_string(), "Cake-000.png".to_string(), "Soup-000.png".to_string()];
    match image_step(&cake(), "d.pdf", &files) {
        CacheStep::Reuse(p) => assert_eq!(p, "/tmp/cooking-fetch/images/Cake-000.png"),
        other => panic!("unexpected {:?}", other),
    }
}

#[test]
fn absent_image_runs_rendering() {
    let files = vec!["Cake-Pie-000.png".to_string(), "Cake.png".to_string(), "Cakes-000.png".to_string()];
    match image_step(&cake(), "d.pdf", &files) {
        CacheStep::Run(run) => {
            assert_eq!(run.program, "pdfimages");
            assert_eq!(run.args, vec!["-png", "-print-filenames", "d.pdf", "/tmp/cooking-fetch/images/Cake"]);
        }
        other => panic!("unexpected {:?}", other),
    }
}

#[test]
fn last_reported_file_is_last_nonempty_line() {
    assert_eq!(last_reported_file("a-000.png\nb-001.png\n").unwrap(), "b-001.png");
    assert_eq!(last_reported_file("a-000.png\n\n  \n").unwrap(), "a-000.png");
    assert_eq!(last_reported_file("only.png").unwrap(), "only.png");
    assert_eq!(last_reported_file("x\r\ny z.png\r\n").unwrap(), "y z.png");
    assert_eq!(last_reported_file("  a.png").unwrap(), "a.png");
    assert_eq!(last_reported_file("\u{3000}a.png\u{a0}\n").unwrap(), "a.png");
    assert_eq!(last_reported_file("a.png\n  b.png \n").unwrap(), "  b.png");
    assert!(last_reported_file("\u{c}").is_none());
    assert!(last_reported_file("\u{2028}\u{85}").is_none());
    assert!(last_reported_file("").is_none());
    assert!(last_reported_file(" \n\t\r\n").is_none());
}

#[test]
fn image_outcomes() {
    assert!(matches!(image_result(false, false, "", String::new()), Err(ExtractError::ToolUnavailable)));
    assert!(matches!(image_result(true, false, "a.png", "bad".to_string()), Err(ExtractError::ToolFailed(_))));
    assert!(matches!(image_result(true, true, "\n", String::new()), Err(ExtractError::NoOutputProduced)));
    assert_eq!(image_result(true, true, "p-000.png\np-001.png\n", String::new()).unwrap(), "p-001.png");
}

#[test]
fn image_files_match_name_dash_digits_png() {
    assert!(is_image_file("Cake", "Cake-000.png"));
    assert!(is_image_file("Cake", "Cake-12.png"));
    assert!(!is_image_file("Cake", "Cake-Pie-000.png"));
    assert!(!is_image_file("Cake", "Cake-.png"));
    assert!(!is_image_file("Cake", "Cake-000.jpg"));
    assert!(!is_image_file("Cake", "Cakes-000.png"));
    assert!(!is_image_file("Cake", "cake-000.png"));
}

#[test]
fn matching_image_takes_last_match() {
    let files = vec![
        "Cake-000.png".to_string(),
        "Cake-001.png".to_string(),
        "Cake-Pie-002.png".to_string(),
        "Soup-000.png".to_string(),
    ];
    assert_eq!(matching_image("Cake", &files).unwrap(), "/tmp/cooking-fetch/images/Cake-001.png");
    assert!(matching_image("Pie", &files).is_none());
    assert!(matching_image("Cake", &vec![]).is_none());
}

#[test]
fn rendered_image_is_reused_afterwards() {
    let mut files = vec!["Soup-000.png".to_string()];
    assert!(matches!(image_step(&cake(), "d.pdf", &files), CacheStep::Run(_)));
    files.push("Cake-000.png".to_string());
    for _ in 0..3 {
        match image_step(&cake(), "d.pdf", &files) {
            CacheStep::Reuse(p) => assert_eq!(p, "/tmp/cooking-fetch/images/Cake-000.png"),
            other => panic!("unexpected {:?}", other),
        }
    }
}
