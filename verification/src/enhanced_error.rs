//! Error messages with context, actionable hints and documentation links.
use vstd::prelude::*;

verus! {

/// Category of an error.
#[derive(Debug, Clone, Copy, PartialEq, Eq, Structural)]
pub enum ErrorCode {
    InvalidVectorDimension,
    CollectionNotFound,
    InvalidFilter,
    MemoryExhausted,
    SegmentOptimizationFailed,
}

/// The text views of a sequence of strings.
pub open spec fn texts(v: Seq<String>) -> Seq<Seq<char>> {
    v.map_values(|s: String| s@)
}

/// The text view of an optional string.
pub open spec fn opt_text(o: Option<String>) -> Option<Seq<char>> {
    match o {
        Some(u) => Some(u@),
        None => None,
    }
}

/// The name of an error code, as `{:?}` prints it.
pub open spec fn code_name(code: ErrorCode) -> Seq<char> {
    match code {
        ErrorCode::InvalidVectorDimension => "InvalidVectorDimension"@,
        ErrorCode::CollectionNotFound => "CollectionNotFound"@,
        ErrorCode::InvalidFilter => "InvalidFilter"@,
        ErrorCode::MemoryExhausted => "MemoryExhausted"@,
        ErrorCode::SegmentOptimizationFailed => "SegmentOptimizationFailed"@,
    }
}

/// The hints that an error of each code carries.
pub open spec fn hints_for(code: ErrorCode) -> Seq<Seq<char>> {
    match code {
        ErrorCode::InvalidVectorDimension => seq![
            "Check that your vectors match the collection's configured dimension"@,
            "Use the collection info endpoint to verify dimension settings"@,
        ],
        ErrorCode::CollectionNotFound => seq![
            "List available collections with GET /collections"@,
            "Create a collection with PUT /collections/{name}"@,
        ],
        ErrorCode::InvalidFilter => seq![
            "Check filter syntax in the documentation"@,
            "Ensure field names match your payload schema"@,
            "Create field indexes for better performance"@,
        ],
        ErrorCode::MemoryExhausted => seq![
            "Consider enabling quantization to reduce memory usage"@,
            "Use on-disk storage for vectors and payloads"@,
            "Increase available RAM or use distributed deployment"@,
        ],
        ErrorCode::SegmentOptimizationFailed => seq![
            "Check disk space availability"@,
            "Review logs for detailed error messages"@,
            "Consider manual segment optimization with POST /collections/{name}/optimize"@,
        ],
    }
}

/// The documentation link of each code.
pub open spec fn docs_for(code: ErrorCode) -> Seq<char> {
    match code {
        ErrorCode::InvalidVectorDimension => "https://qdrant.tech/documentation/concepts/collections/#vector-size"@,
        ErrorCode::CollectionNotFound => "https://qdrant.tech/documentation/concepts/collections/"@,
        ErrorCode::InvalidFilter => "https://qdrant.tech/documentation/concepts/filtering/"@,
        ErrorCode::MemoryExhausted => "https://qdrant.tech/documentation/guides/quantization/"@,
        ErrorCode::SegmentOptimizationFailed => "https://qdrant.tech/documentation/concepts/optimizer/"@,
    }
}

/// Each item on a line of its own, indented and bulleted.
pub open spec fn bullet_lines(items: Seq<Seq<char>>) -> Seq<char>
    decreases items.len(),
{
    if items.len() == 0 {
        Seq::empty()
    } else {
        bullet_lines(items.drop_last()) + "  - "@ + items.last() + "\n"@
    }
}

/// A titled section of bullet lines, or nothing for no items.
pub open spec fn section(title: Seq<char>, items: Seq<Seq<char>>) -> Seq<char> {
    if items.len() == 0 {
        Seq::empty()
    } else {
        title + bullet_lines(items)
    }
}

/// The text an error is displayed as.
pub open spec fn display_text(
    code: ErrorCode,
    message: Seq<char>,
    context: Seq<Seq<char>>,
    hints: Seq<Seq<char>>,
    docs_url: Option<Seq<char>>,
) -> Seq<char> {
    "Error ["@ + code_name(code) + "]: "@ + message + "\n"@ + section("\nContext:\n"@, context)
        + section("\nHints:\n"@, hints) + match docs_url {
        Some(u) => "\nDocumentation: "@ + u + "\n"@,
        None => Seq::empty(),
    }
}

/// Every error code comes with guidance: at least two hints and a link into
/// the Qdrant documentation, so a displayed error always has its hints and
/// documentation sections.
pub proof fn lemma_every_code_has_guidance(code: ErrorCode)
    ensures
        hints_for(code).len() >= 2,
        docs_for(code).len() > 0,
        "https://qdrant.tech/documentation/"@.is_prefix_of(docs_for(code)),
        section("\nHints:\n"@, hints_for(code)) == "\nHints:\n"@ + bullet_lines(hints_for(code)),
{
    reveal_strlit("https://qdrant.tech/documentation/");
    reveal_strlit("https://qdrant.tech/documentation/concepts/collections/#vector-size");
    reveal_strlit("https://qdrant.tech/documentation/concepts/collections/");
    reveal_strlit("https://qdrant.tech/documentation/concepts/filtering/");
    reveal_strlit("https://qdrant.tech/documentation/guides/quantization/");
    reveal_strlit("https://qdrant.tech/documentation/concepts/optimizer/");
    let prefix = "https://qdrant.tech/documentation/"@;
    assert(prefix =~= docs_for(code).subrange(0, prefix.len() as int));
}

/// How much guidance each code gets: two hints for a wrong vector dimension
/// and a missing collection, three for the others; and no two codes share a
/// documentation link.
pub proof fn lemma_guidance_per_code()
    ensures
        hints_for(ErrorCode::InvalidVectorDimension).len() == 2,
        hints_for(ErrorCode::CollectionNotFound).len() == 2,
        hints_for(ErrorCode::InvalidFilter).len() == 3,
        hints_for(ErrorCode::MemoryExhausted).len() == 3,
        hints_for(ErrorCode::SegmentOptimizationFailed).len() == 3,
        forall|a: ErrorCode, b: ErrorCode| a != b ==> #[trigger] docs_for(a) != #[trigger] docs_for(
            b,
        ),
{
    reveal_strlit("https://qdrant.tech/documentation/concepts/collections/#vector-size");
    reveal_strlit("https://qdrant.tech/documentation/concepts/collections/");
    reveal_strlit("https://qdrant.tech/documentation/concepts/filtering/");
    reveal_strlit("https://qdrant.tech/documentation/guides/quantization/");
    reveal_strlit("https://qdrant.tech/documentation/concepts/optimizer/");
    assert(docs_for(ErrorCode::InvalidFilter)[43] != docs_for(
        ErrorCode::SegmentOptimizationFailed,
    )[43]);
    assert forall|a: ErrorCode, b: ErrorCode| a != b implies #[trigger] docs_for(a)
        != #[trigger] docs_for(b) by {
        if docs_for(a) == docs_for(b) {
            assert(docs_for(a).len() == docs_for(b).len());
            assert(docs_for(a)[43] == docs_for(b)[43]);
        }
    }
}

/// An error with its code, message, context lines, hints and documentation
/// link.
#[derive(Debug, Clone)]
pub struct EnhancedError {
    pub code: ErrorCode,
    pub message: String,
    pub context: Vec<String>,
    pub hints: Vec<String>,
    pub docs_url: Option<String>,
}

/// An owned copy of a string literal.
fn owned(s: &str) -> (r: String)
    ensures
        r@ == s@,
{
    String::from_str(s)
}

/// Appends the bullet lines of `items` to `out`.
fn push_bullets(out: &mut String, items: &Vec<String>)
    ensures
        final(out)@ == old(out)@ + bullet_lines(texts(items@)),
{
    let mut k: usize = 0;
    while k < items.len()
        invariant
            k <= items.len(),
            out@ == old(out)@ + bullet_lines(texts(items@.subrange(0, k as int))),
        decreases items.len() - k,
    {
        let ghost prev = out@;
        out.append("  - ");
        out.append(items[k].as_str());
        out.append("\n");
        proof {
            let done = items@.subrange(0, k as int);
            let next = items@.subrange(0, k + 1);
            assert(texts(next).drop_last() =~= texts(done));
            assert(texts(next).last() == items@[k as int]@);
            assert(out@ =~= old(out)@ + bullet_lines(texts(next)));
        }
        k = k + 1;
    }
    proof {
        assert(items@.subrange(0, items@.len() as int) =~= items@);
    }
}

impl EnhancedError {
    /// An error of `code` with `message`, no context, and the hints and
    /// documentation link of its code.
    pub fn new(code: ErrorCode, message: &str) -> (e: Self)
        ensures
            e.code == code,
            e.message@ == message@,
            e.context@.len() == 0,
            texts(e.hints@) == hints_for(code),
            e.docs_url is Some,
            e.docs_url.unwrap()@ == docs_for(code),
    {
        let (hints, docs_url) = Self::generate_hints_and_docs(&code);
        EnhancedError { code, message: String::from_str(message), context: Vec::new(), hints, docs_url }
    }

    /// The same error with one more context line at the end.
    pub fn with_context(self, context: &str) -> (e: Self)
        ensures
            e.code == self.code,
            e.message@ == self.message@,
            texts(e.context@) == texts(self.context@).push(context@),
            texts(e.hints@) == texts(self.hints@),
            e.docs_url == self.docs_url,
    {
        let mut e = self;
        e.context.push(String::from_str(context));
        proof {
            assert(texts(e.context@) =~= texts(self.context@).push(context@));
        }
        e
    }

    fn generate_hints_and_docs(code: &ErrorCode) -> (r: (Vec<String>, Option<String>))
        ensures
            texts(r.0@) == hints_for(*code),
            r.1 is Some,
            r.1.unwrap()@ == docs_for(*code),
    {
        let r = match code {
            ErrorCode::InvalidVectorDimension => (
                vec![
                    owned("Check that your vectors match the collection's configured dimension"),
                    owned("Use the collection info endpoint to verify dimension settings"),
                ],
                Some(owned("https://qdrant.tech/documentation/concepts/collections/#vector-size")),
            ),
            ErrorCode::CollectionNotFound => (
                vec![
                    owned("List available collections with GET /collections"),
                    owned("Create a collection with PUT /collections/{name}"),
                ],
                Some(owned("https://qdrant.tech/documentation/concepts/collections/")),
            ),
            ErrorCode::InvalidFilter => (
                vec![
                    owned("Check filter syntax in the documentation"),
                    owned("Ensure field names match your payload schema"),
                    owned("Create field indexes for better performance"),
                ],
                Some(owned("https://qdrant.tech/documentation/concepts/filtering/")),
            ),
            ErrorCode::MemoryExhausted => (
                vec![
                    owned("Consider enabling quantization to reduce memory usage"),
                    owned("Use on-disk storage for vectors and payloads"),
                    owned("Increase available RAM or use distributed deployment"),
                ],
                Some(owned("https://qdrant.tech/documentation/guides/quantization/")),
            ),
            ErrorCode::SegmentOptimizationFailed => (
                vec![
                    owned("Check disk space availability"),
                    owned("Review logs for detailed error messages"),
                    owned(
                        "Consider manual segment optimization with POST /collections/{name}/optimize",
                    ),
                ],
                Some(owned("https://qdrant.tech/documentation/concepts/optimizer/")),
            ),
        };
        proof {
            assert(texts(r.0@) =~= hints_for(*code));
        }
        r
    }

    /// The text the error is displayed as: a headline with code and
    /// message, then the context, hints and documentation sections.
    pub fn display_string(&self) -> (s: String)
        ensures
            s@ == display_text(
                self.code,
                self.message@,
                texts(self.context@),
                texts(self.hints@),
                opt_text(self.docs_url),
            ),
    {
        let mut out = String::from_str("Error [");
        out.append(match self.code {
            ErrorCode::InvalidVectorDimension => "InvalidVectorDimension",
            ErrorCode::CollectionNotFound => "CollectionNotFound",
            ErrorCode::InvalidFilter => "InvalidFilter",
            ErrorCode::MemoryExhausted => "MemoryExhausted",
            ErrorCode::SegmentOptimizationFailed => "SegmentOptimizationFailed",
        });
        out.append("]: ");
        out.append(self.message.as_str());
        out.append("\n");
        let ghost head = out@;
        if self.context.len() > 0 {
            out.append("\nContext:\n");
            push_bullets(&mut out, &self.context);
        }
        let ghost with_context = out@;
        assert(with_context =~= head + section("\nContext:\n"@, texts(self.context@)));
        if self.hints.len() > 0 {
            out.append("\nHints:\n");
            push_bullets(&mut out, &self.hints);
        }
        let ghost with_hints = out@;
        assert(with_hints =~= with_context + section("\nHints:\n"@, texts(self.hints@)));
        match &self.docs_url {
            Some(url) => {
                out.append("\nDocumentation: ");
                out.append(url.as_str());
                out.append("\n");
            },
            None => {},
        }
        proof {
            assert(out@ =~= display_text(
                self.code,
                self.message@,
                texts(self.context@),
                texts(self.hints@),
                opt_text(self.docs_url),
            ));
        }
        out
    }
}

} // verus!
