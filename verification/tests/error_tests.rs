use qdrant_toolkit::enhanced_error::{EnhancedError, ErrorCode};

#[test]
fn test_enhanced_error() {
    let error = EnhancedError::new(
        ErrorCode::InvalidVectorDimension,
        "Vector has 128 dimensions, expected 384",
    )
    .with_context("Collection: my_collection")
    .with_context("Point ID: 12345");

    let error_str = error.display_string();
    assert!(error_str.contains("InvalidVectorDimension"));
    assert!(error_str.contains("Hints:"));
    assert!(error_str.contains("Documentation:"));
}

#[test]
fn display_text_is_exact() {
    let error = EnhancedError::new(
        ErrorCode::InvalidVectorDimension,
        "Vector has 128 dimensions, expected 384",
    )
    .with_context("Collection: my_collection")
    .with_context("Point ID: 12345");
    let expected = "Error [InvalidVectorDimension]: Vector has 128 dimensions, expected 384\n\
\nContext:\n  - Collection: my_collection\n  - Point ID: 12345\n\
\nHints:\n  - Check that your vectors match the collection's configured dimension\n  - Use the collection info endpoint to verify dimension settings\n\
\nDocumentation: https://qdrant.tech/documentation/concepts/collections/#vector-size\n";
    assert_eq!(error.display_string(), expected);
}

#[test]
fn no_context_section_without_context() {
    let e = EnhancedError::new(ErrorCode::CollectionNotFound, "missing");
    let s = e.display_string();
    assert!(!s.contains("Context:"));
    assert!(s.starts_with("Error [CollectionNotFound]: missing\n\nHints:\n"));
}

#[test]
fn every_code_has_hints_and_docs() {
    let cases = [
        (ErrorCode::InvalidVectorDimension, 2, "https://qdrant.tech/documentation/concepts/collections/#vector-size"),
        (ErrorCode::CollectionNotFound, 2, "https://qdrant.tech/documentation/concepts/collections/"),
        (ErrorCode::InvalidFilter, 3, "https://qdrant.tech/documentation/concepts/filtering/"),
        (ErrorCode::MemoryExhausted, 3, "https://qdrant.tech/documentation/guides/quantization/"),
        (ErrorCode::SegmentOptimizationFailed, 3, "https://qdrant.tech/documentation/concepts/optimizer/"),
    ];
    for (code, n, url) in cases {
        let e = EnhancedError::new(code, "m");
        assert_eq!(e.hints.len(), n);
        assert_eq!(e.docs_url.as_deref(), Some(url));
        assert_eq!(e.code, code);
        assert!(e.context.is_empty());
    }
    let e = EnhancedError::new(ErrorCode::SegmentOptimizationFailed, "m");
    assert_eq!(
        e.hints[2],
        "Consider manual segment optimization with POST /collections/{name}/optimize"
    );
}

#[test]
fn every_code_links_into_the_documentation() {
    for code in [
        ErrorCode::InvalidVectorDimension,
        ErrorCode::CollectionNotFound,
        ErrorCode::InvalidFilter,
        ErrorCode::MemoryExhausted,
        ErrorCode::SegmentOptimizationFailed,
    ] {
        let e = EnhancedError::new(code, "m");
        assert!(e.hints.len() >= 2);
        assert!(e.docs_url.as_ref().unwrap().starts_with("https://qdrant.tech/documentation/"));
    }
}

#[test]
fn hint_counts_and_distinct_links_per_code() {
    let codes = [
        (ErrorCode::InvalidVectorDimension, 2),
        (ErrorCode::CollectionNotFound, 2),
        (ErrorCode::InvalidFilter, 3),
        (ErrorCode::MemoryExhausted, 3),
        (ErrorCode::SegmentOptimizationFailed, 3),
    ];
    let mut links: Vec<String> = Vec::new();
    for (code, hints) in codes {
        let e = EnhancedError::new(code, "m");
        assert_eq!(e.hints.len(), hints);
        let link = e.docs_url.unwrap();
        assert!(!links.contains(&link));
        links.push(link);
    }
}
