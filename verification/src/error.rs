use vstd::prelude::*;

verus! {

/// Failure of the annotation scanner. Positions are character offsets into
/// the original text.
#[derive(Debug, Clone, Copy, PartialEq, Eq, Structural)]
pub enum ScanError {
    /// A `[` was seen while an earlier `[` was still unclosed.
    TagOpenedTwice { pos: usize },
    /// A `(` followed a closed tag while an earlier link was still unclosed.
    LinkOpenedTwice { pos: usize },
    /// The code-fence depth left the range 0 through 3.
    TooManyCodeTicks { pos: usize },
    /// The input ended inside a code fence.
    UnbalancedCodeFence,
    /// The input ended directly after a closing `]`.
    LateTagClosing,
    /// An annotation with a value but neither a link nor a known name.
    UnknownAttribute { pos: usize },
    /// A known attribute name that carries no value to record.
    KnownAttributeWithoutHandler { pos: usize },
}

/// Failure of the render pipeline.
#[derive(Debug, Clone, PartialEq, Eq)]
pub enum RenderError {
    /// A heading line whose opening and closing levels differ.
    HeadingTagMismatch,
    /// An image span scheduled for rewriting could not be located.
    ImagePositionNotFound,
    /// A heading span scheduled for rewriting could not be located.
    HeadlinePositionNotFound,
    /// The templating engine refused to render a page.
    TemplateFailure { message: String },
    /// A search pattern could not be prepared.
    PatternCompileFailure,
}

/// Why a link failed verification.
#[derive(Debug, Clone, Copy, PartialEq, Eq, Structural)]
pub enum LinkFailCause {
    /// The link resolves to no existing input or output path.
    UnknownFile,
    /// The link's fragment names no heading id of the target post.
    UnknownHeadlineId,
}

/// Failure of the generation run outside scanning and rendering.
#[derive(Debug, Clone, PartialEq, Eq)]
pub enum PipelineError {
    /// A reserved aggregate source file was never discovered.
    MissingDeferredContent,
    /// A filesystem step failed; the message comes from the caller.
    Io { message: String },
    /// A post carries a link that verification rejects.
    LinkNotFound { link: String, cause: LinkFailCause },
    /// Image metadata could not be read or cleared.
    MetadataFailure { message: String },
}

/// The descriptive phrase of a scan failure.
pub open spec fn spec_scan_error_message(e: ScanError) -> Seq<char> {
    match e {
        ScanError::TagOpenedTwice { .. } => "tag opened twice"@,
        ScanError::LinkOpenedTwice { .. } => "link opened twice"@,
        ScanError::TooManyCodeTicks { .. } => "too many code block ticks"@,
        ScanError::UnbalancedCodeFence => "code fence left open"@,
        ScanError::LateTagClosing => "possible late tag closing"@,
        ScanError::UnknownAttribute { .. } => "unknown attribute"@,
        ScanError::KnownAttributeWithoutHandler { .. } => "known attribute without a value"@,
    }
}

/// Renders a scan failure as its descriptive phrase.
pub fn scan_error_message(e: &ScanError) -> (r: String)
    ensures
        r@ == spec_scan_error_message(*e),
{
    match e {
        ScanError::TagOpenedTwice { .. } => "tag opened twice".to_owned(),
        ScanError::LinkOpenedTwice { .. } => "link opened twice".to_owned(),
        ScanError::TooManyCodeTicks { .. } => "too many code block ticks".to_owned(),
        ScanError::UnbalancedCodeFence => "code fence left open".to_owned(),
        ScanError::LateTagClosing => "possible late tag closing".to_owned(),
        ScanError::UnknownAttribute { .. } => "unknown attribute".to_owned(),
        ScanError::KnownAttributeWithoutHandler { .. } => "known attribute without a value".to_owned(),
    }
}

/// The descriptive message of a render failure.
pub open spec fn spec_render_error_message(e: RenderError) -> Seq<char> {
    match e {
        RenderError::HeadingTagMismatch => "unmatching headline tags found"@,
        RenderError::ImagePositionNotFound => "image starting position not found"@,
        RenderError::HeadlinePositionNotFound => "headline starting position not found"@,
        RenderError::TemplateFailure { message } => message@,
        RenderError::PatternCompileFailure => "unable to build search pattern"@,
    }
}

/// Renders a render failure as its descriptive message.
pub fn render_error_message(e: &RenderError) -> (r: String)
    ensures
        r@ == spec_render_error_message(*e),
{
    match e {
        RenderError::HeadingTagMismatch => "unmatching headline tags found".to_owned(),
        RenderError::ImagePositionNotFound => "image starting position not found".to_owned(),
        RenderError::HeadlinePositionNotFound => "headline starting position not found".to_owned(),
        RenderError::TemplateFailure { message } => message.clone(),
        RenderError::PatternCompileFailure => "unable to build search pattern".to_owned(),
    }
}

/// Generic run-aborting error with a descriptive message.
#[derive(Debug, Clone)]
pub struct GeneratorError {
    pub message: String,
}

impl GeneratorError {
    pub fn new(message: String) -> (r: GeneratorError)
        ensures
            r.message@ == message@,
    {
        GeneratorError { message }
    }
}

} // verus!
