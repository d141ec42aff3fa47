use vstd::prelude::*;

verus! {

/// The way an inline command of a documentation comment is to be rendered. Its C value is the variant's position, from 0.
#[derive(Clone, Copy, Debug, PartialEq, Eq, PartialOrd, Ord, Hash, Structural)]
pub enum CXCommentInlineCommandRenderKind {
    Normal,
    Bold,
    Monospaced,
    Emphasized,
}

impl CXCommentInlineCommandRenderKind {
    /// The value C code uses for this variant.
    pub open spec fn spec_raw(self) -> i32 {
        match self {
            CXCommentInlineCommandRenderKind::Normal => 0,
            CXCommentInlineCommandRenderKind::Bold => 1,
            CXCommentInlineCommandRenderKind::Monospaced => 2,
            CXCommentInlineCommandRenderKind::Emphasized => 3,
        }
    }

    /// The value C code uses for this variant.
    pub fn raw(self) -> (r: i32)
        ensures
            r == self.spec_raw(),
    {
        match self {
            CXCommentInlineCommandRenderKind::Normal => 0,
            CXCommentInlineCommandRenderKind::Bold => 1,
            CXCommentInlineCommandRenderKind::Monospaced => 2,
            CXCommentInlineCommandRenderKind::Emphasized => 3,
        }
    }

    /// The variant C code means by `value`, if any.
    pub fn from_raw(value: i32) -> (r: Option<Self>)
        ensures
            r is Some <==> 0 <= value < 4,
            r is Some ==> r->0.spec_raw() == value,
    {
        if value == 0 {
            Some(CXCommentInlineCommandRenderKind::Normal)
        } else if value == 1 {
            Some(CXCommentInlineCommandRenderKind::Bold)
        } else if value == 2 {
            Some(CXCommentInlineCommandRenderKind::Monospaced)
        } else if value == 3 {
            Some(CXCommentInlineCommandRenderKind::Emphasized)
        } else {
            None
        }
    }
}

/// The kind of a node of a parsed documentation comment. Its C value is the variant's position, from 0.
#[derive(Clone, Copy, Debug, PartialEq, Eq, PartialOrd, Ord, Hash, Structural)]
pub enum CXCommentKind {
    Null,
    Text,
    InlineCommand,
    HTMLStartTag,
    HTMLEndTag,
    Paragraph,
    BlockCommand,
    ParamCommand,
    TParamCommand,
    VerbatimBlockCommand,
    VerbatimBlockLine,
    VerbatimLine,
    FullComment,
}

impl CXCommentKind {
    /// The value C code uses for this variant.
    pub open spec fn spec_raw(self) -> i32 {
        match self {
            CXCommentKind::Null => 0,
            CXCommentKind::Text => 1,
            CXCommentKind::InlineCommand => 2,
            CXCommentKind::HTMLStartTag => 3,
            CXCommentKind::HTMLEndTag => 4,
            CXCommentKind::Paragraph => 5,
            CXCommentKind::BlockCommand => 6,
            CXCommentKind::ParamCommand => 7,
            CXCommentKind::TParamCommand => 8,
            CXCommentKind::VerbatimBlockCommand => 9,
            CXCommentKind::VerbatimBlockLine => 10,
            CXCommentKind::VerbatimLine => 11,
            CXCommentKind::FullComment => 12,
        }
    }

    /// The value C code uses for this variant.
    pub fn raw(self) -> (r: i32)
        ensures
            r == self.spec_raw(),
    {
        match self {
            CXCommentKind::Null => 0,
            CXCommentKind::Text => 1,
            CXCommentKind::InlineCommand => 2,
            CXCommentKind::HTMLStartTag => 3,
            CXCommentKind::HTMLEndTag => 4,
            CXCommentKind::Paragraph => 5,
            CXCommentKind::BlockCommand => 6,
            CXCommentKind::ParamCommand => 7,
            CXCommentKind::TParamCommand => 8,
            CXCommentKind::VerbatimBlockCommand => 9,
            CXCommentKind::VerbatimBlockLine => 10,
            CXCommentKind::VerbatimLine => 11,
            CXCommentKind::FullComment => 12,
        }
    }

    /// The variant C code means by `value`, if any.
    pub fn from_raw(value: i32) -> (r: Option<Self>)
        ensures
            r is Some <==> 0 <= value < 13,
            r is Some ==> r->0.spec_raw() == value,
    {
        if value == 0 {
            Some(CXCommentKind::Null)
        } else if value == 1 {
            Some(CXCommentKind::Text)
        } else if value == 2 {
            Some(CXCommentKind::InlineCommand)
        } else if value == 3 {
            Some(CXCommentKind::HTMLStartTag)
        } else if value == 4 {
            Some(CXCommentKind::HTMLEndTag)
        } else if value == 5 {
            Some(CXCommentKind::Paragraph)
        } else if value == 6 {
            Some(CXCommentKind::BlockCommand)
        } else if value == 7 {
            Some(CXCommentKind::ParamCommand)
        } else if value == 8 {
            Some(CXCommentKind::TParamCommand)
        } else if value == 9 {
            Some(CXCommentKind::VerbatimBlockCommand)
        } else if value == 10 {
            Some(CXCommentKind::VerbatimBlockLine)
        } else if value == 11 {
            Some(CXCommentKind::VerbatimLine)
        } else if value == 12 {
            Some(CXCommentKind::FullComment)
        } else {
            None
        }
    }
}

/// The direction in which a documented parameter is passed. Its C value is the variant's position, from 0.
#[derive(Clone, Copy, Debug, PartialEq, Eq, PartialOrd, Ord, Hash, Structural)]
pub enum CXCommentParamPassDirection {
    In,
    Out,
    InOut,
}

impl CXCommentParamPassDirection {
    /// The value C code uses for this variant.
    pub open spec fn spec_raw(self) -> i32 {
        match self {
            CXCommentParamPassDirection::In => 0,
            CXCommentParamPassDirection::Out => 1,
            CXCommentParamPassDirection::InOut => 2,
        }
    }

    /// The value C code uses for this variant.
    pub fn raw(self) -> (r: i32)
        ensures
            r == self.spec_raw(),
    {
        match self {
            CXCommentParamPassDirection::In => 0,
            CXCommentParamPassDirection::Out => 1,
            CXCommentParamPassDirection::InOut => 2,
        }
    }

    /// The variant C code means by `value`, if any.
    pub fn from_raw(value: i32) -> (r: Option<Self>)
        ensures
            r is Some <==> 0 <= value < 3,
            r is Some ==> r->0.spec_raw() == value,
    {
        if value == 0 {
            Some(CXCommentParamPassDirection::In)
        } else if value == 1 {
            Some(CXCommentParamPassDirection::Out)
        } else if value == 2 {
            Some(CXCommentParamPassDirection::InOut)
        } else {
            None
        }
    }
}

} // verus!
