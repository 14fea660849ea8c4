use vstd::prelude::*;

verus! {

/// What went wrong while reading a file or building a render mesh.
#[derive(Debug, Clone, Copy, PartialEq, Eq, Structural)]
pub enum ErrorKind {
    /// A numeric attribute record has a missing or invalid component.
    MalformedGeometry,
    /// A face point component is zero, not a valid signed integer, or reaches
    /// before the start of its array.
    InvalidIndex,
    /// A face statement has fewer than three points.
    TooFewFacePoints,
    /// A face's separator pattern differs from the shape fixed for its submesh.
    InconsistentFaceShape,
    /// A resolved index falls outside its attribute array.
    IndexOutOfRange,
    /// A statement does not match its keyword's grammar.
    MalformedStatement,
}

impl ErrorKind {
    /// The text of this kind's label.
    pub open spec fn label_text(self) -> Seq<char> {
        match self {
            ErrorKind::MalformedGeometry => "malformed geometry"@,
            ErrorKind::InvalidIndex => "invalid index"@,
            ErrorKind::TooFewFacePoints => "too few face points"@,
            ErrorKind::InconsistentFaceShape => "inconsistent face shape"@,
            ErrorKind::IndexOutOfRange => "index out of range"@,
            ErrorKind::MalformedStatement => "malformed statement"@,
        }
    }

    /// A human-readable label for this kind.
    pub fn label(&self) -> (r: &'static str)
        ensures
            r@ == self.label_text(),
    {
        match self {
            ErrorKind::MalformedGeometry => "malformed geometry",
            ErrorKind::InvalidIndex => "invalid index",
            ErrorKind::TooFewFacePoints => "too few face points",
            ErrorKind::InconsistentFaceShape => "inconsistent face shape",
            ErrorKind::IndexOutOfRange => "index out of range",
            ErrorKind::MalformedStatement => "malformed statement",
        }
    }
}

/// The statement, element or lookup being handled when a failure happened.
#[derive(Debug, Clone, Copy, PartialEq, Eq, Structural)]
pub enum Context {
    Keyword,
    VertexGeometry,
    VertexNormal,
    VertexTexture,
    ElementFace,
    AttributeGroup,
    AttributeSmoothing,
    AttributeObjectName,
    AttributeMtllib,
    AttributeMaterial,
    LineEnd,
    VertexIndex,
    TextureIndex,
    NormalIndex,
    FacePoint,
    VertexLookup,
    NormalLookup,
    UvLookup,
}

impl Context {
    /// The text of this context's label.
    pub open spec fn label_text(self) -> Seq<char> {
        match self {
            Context::Keyword => "keyword"@,
            Context::VertexGeometry => "vertex geometry"@,
            Context::VertexNormal => "vertex normal"@,
            Context::VertexTexture => "vertex texture"@,
            Context::ElementFace => "element face"@,
            Context::AttributeGroup => "attribute group"@,
            Context::AttributeSmoothing => "attribute smoothing group"@,
            Context::AttributeObjectName => "attribute object name"@,
            Context::AttributeMtllib => "attribute mtllib"@,
            Context::AttributeMaterial => "attribute material"@,
            Context::LineEnd => "line ending"@,
            Context::VertexIndex => "vertex index"@,
            Context::TextureIndex => "texture index"@,
            Context::NormalIndex => "normal index"@,
            Context::FacePoint => "face point"@,
            Context::VertexLookup => "vertex lookup"@,
            Context::NormalLookup => "normal lookup"@,
            Context::UvLookup => "uv lookup"@,
        }
    }

    /// A human-readable label for this context.
    pub fn label(&self) -> (r: &'static str)
        ensures
            r@ == self.label_text(),
    {
        match self {
            Context::Keyword => "keyword",
            Context::VertexGeometry => "vertex geometry",
            Context::VertexNormal => "vertex normal",
            Context::VertexTexture => "vertex texture",
            Context::ElementFace => "element face",
            Context::AttributeGroup => "attribute group",
            Context::AttributeSmoothing => "attribute smoothing group",
            Context::AttributeObjectName => "attribute object name",
            Context::AttributeMtllib => "attribute mtllib",
            Context::AttributeMaterial => "attribute material",
            Context::LineEnd => "line ending",
            Context::VertexIndex => "vertex index",
            Context::TextureIndex => "texture index",
            Context::NormalIndex => "normal index",
            Context::FacePoint => "face point",
            Context::VertexLookup => "vertex lookup",
            Context::NormalLookup => "normal lookup",
            Context::UvLookup => "uv lookup",
        }
    }
}

/// A failure: its kind, the statement (or lookup) it arose in, the element
/// of that statement where one applies, and the byte offset in the input
/// where the failing statement starts (0 where no offset applies).
#[derive(Debug, Clone, Copy, PartialEq, Eq, Structural)]
pub struct WobjError {
    pub kind: ErrorKind,
    pub context: Context,
    pub detail: Option<Context>,
    pub offset: usize,
}

/// The labels from the outermost context inwards, ending in the kind.
pub open spec fn trail(context: Context, detail: Option<Context>, kind: ErrorKind) -> Seq<
    Seq<char>,
> {
    match detail {
        Some(d) => seq![context.label_text(), d.label_text(), kind.label_text()],
        None => seq![context.label_text(), kind.label_text()],
    }
}

/// The labels of a trail joined by ` > `.
pub open spec fn joined(labels: Seq<Seq<char>>) -> Seq<char>
    decreases labels.len(),
{
    if labels.len() == 0 {
        Seq::empty()
    } else if labels.len() == 1 {
        labels[0]
    } else {
        joined(labels.drop_last()) + " > "@ + labels.last()
    }
}

impl WobjError {
    pub fn new(kind: ErrorKind, context: Context, offset: usize) -> (r: WobjError)
        ensures
            r.kind == kind,
            r.context == context,
            r.detail is None,
            r.offset == offset,
    {
        WobjError { kind, context, detail: None, offset }
    }

    pub fn within(kind: ErrorKind, context: Context, detail: Option<Context>, offset: usize) -> (r:
        WobjError)
        ensures
            r.kind == kind,
            r.context == context,
            r.detail == detail,
            r.offset == offset,
    {
        WobjError { kind, context, detail, offset }
    }

    pub fn kind(&self) -> (r: ErrorKind)
        ensures
            r == self.kind,
    {
        self.kind
    }

    pub fn context(&self) -> (r: Context)
        ensures
            r == self.context,
    {
        self.context
    }

    pub fn detail(&self) -> (r: Option<Context>)
        ensures
            r == self.detail,
    {
        self.detail
    }

    pub fn offset(&self) -> (r: usize)
        ensures
            r == self.offset,
    {
        self.offset
    }

    /// The labels of the failure, from the statement inwards, ending in the
    /// kind: for example `element face`, `texture index`, `invalid index`.
    pub fn breadcrumb(&self) -> (r: Vec<&'static str>)
        ensures
            r@.len() == trail(self.context, self.detail, self.kind).len(),
            forall|k: int|
                0 <= k < r@.len() ==> (#[trigger] r@[k])@ == trail(
                    self.context,
                    self.detail,
                    self.kind,
                )[k],
    {
        let mut r: Vec<&'static str> = Vec::new();
        r.push(self.context.label());
        match self.detail {
            Some(d) => {
                r.push(d.label());
            },
            None => {},
        }
        r.push(self.kind.label());
        r
    }

    /// The breadcrumb as one line, its labels joined by ` > `.
    pub fn message(&self) -> (r: String)
        ensures
            r@ == joined(trail(self.context, self.detail, self.kind)),
    {
        let labels = self.breadcrumb();
        let ghost t = trail(self.context, self.detail, self.kind);
        let mut r = String::from_str(labels[0]);
        assert(t.subrange(0, 1) =~= seq![t[0]]);
        let mut k: usize = 1;
        while k < labels.len()
            invariant
                1 <= k <= labels@.len(),
                labels@.len() == t.len(),
                forall|j: int| 0 <= j < labels@.len() ==> (#[trigger] labels@[j])@ == t[j],
                r@ == joined(t.subrange(0, k as int)),
            decreases labels@.len() - k,
        {
            r.append(" > ");
            r.append(labels[k]);
            assert(t.subrange(0, k + 1).drop_last() =~= t.subrange(0, k as int));
            k = k + 1;
        }
        assert(t.subrange(0, t.len() as int) =~= t);
        r
    }
}

} // verus!
