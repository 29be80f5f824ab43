//! The files of a package, as the store hands them to the library.

use vstd::prelude::*;

verus! {

/// A file whose content is text.
#[derive(Debug)]
pub struct Document {
    pub package_name: String,
    /// The file's name, relative to the package root.
    pub id: String,
    pub content: String,
    pub parent_path: String,
}

/// A `Document`, as the contracts speak of it.
pub struct DocumentView {
    pub package_name: Seq<char>,
    pub id: Seq<char>,
    pub content: Seq<char>,
    pub parent_path: Seq<char>,
}

impl View for Document {
    type V = DocumentView;

    open spec fn view(&self) -> DocumentView {
        DocumentView {
            package_name: self.package_name@,
            id: self.id@,
            content: self.content@,
            parent_path: self.parent_path@,
        }
    }
}

impl Clone for Document {
    fn clone(&self) -> (r: Self)
        ensures
            r@ == self@,
    {
        Document {
            package_name: self.package_name.clone(),
            id: self.id.clone(),
            content: self.content.clone(),
            parent_path: self.parent_path.clone(),
        }
    }
}

/// A file whose content is bytes.
#[derive(Debug)]
pub struct Static {
    pub package_name: String,
    /// The file's name, relative to the package root.
    pub id: String,
    pub content: Vec<u8>,
    pub base_path: String,
}

/// A `Static`, as the contracts speak of it.
pub struct StaticView {
    pub package_name: Seq<char>,
    pub id: Seq<char>,
    pub content: Seq<u8>,
    pub base_path: Seq<char>,
}

impl View for Static {
    type V = StaticView;

    open spec fn view(&self) -> StaticView {
        StaticView {
            package_name: self.package_name@,
            id: self.id@,
            content: self.content@,
            base_path: self.base_path@,
        }
    }
}

impl Clone for Static {
    fn clone(&self) -> (r: Self)
        ensures
            r@ == self@,
    {
        let content = self.content.clone();
        assert(content@ =~= self.content@);
        Static {
            package_name: self.package_name.clone(),
            id: self.id.clone(),
            content,
            base_path: self.base_path.clone(),
        }
    }
}

/// A file of a package, by kind.
#[derive(Debug)]
pub enum File {
    Ftd(Document),
    Static(Static),
    Markdown(Document),
    Image(Static),
    Code(Document),
}

/// A `File`, as the contracts speak of it.
pub enum FileView {
    Ftd(DocumentView),
    Static(StaticView),
    Markdown(DocumentView),
    Image(StaticView),
    Code(DocumentView),
}

impl View for File {
    type V = FileView;

    open spec fn view(&self) -> FileView {
        match self {
            File::Ftd(d) => FileView::Ftd(d@),
            File::Static(s) => FileView::Static(s@),
            File::Markdown(d) => FileView::Markdown(d@),
            File::Image(s) => FileView::Image(s@),
            File::Code(d) => FileView::Code(d@),
        }
    }
}

impl DeepView for File {
    type V = FileView;

    open spec fn deep_view(&self) -> FileView {
        self@
    }
}

impl FileView {
    /// The file's name, relative to the package root.
    pub open spec fn id(self) -> Seq<char> {
        match self {
            FileView::Ftd(d) => d.id,
            FileView::Static(s) => s.id,
            FileView::Markdown(d) => d.id,
            FileView::Image(s) => s.id,
            FileView::Code(d) => d.id,
        }
    }

    /// Whether the file is served as it is, without rendering.
    pub open spec fn is_static(self) -> bool {
        self is Static || self is Image
    }
}

impl Clone for File {
    fn clone(&self) -> (r: Self)
        ensures
            r@ == self@,
    {
        match self {
            File::Ftd(d) => File::Ftd(d.clone()),
            File::Static(s) => File::Static(s.clone()),
            File::Markdown(d) => File::Markdown(d.clone()),
            File::Image(s) => File::Image(s.clone()),
            File::Code(d) => File::Code(d.clone()),
        }
    }
}

impl File {
    /// The file's name, relative to the package root.
    pub fn get_id(&self) -> (id: String)
        ensures
            id@ == self@.id(),
    {
        match self {
            File::Ftd(d) => d.id.clone(),
            File::Static(s) => s.id.clone(),
            File::Markdown(d) => d.id.clone(),
            File::Image(s) => s.id.clone(),
            File::Code(d) => d.id.clone(),
        }
    }

    /// Whether the file is served as it is, without rendering.
    pub fn is_static(&self) -> (b: bool)
        ensures
            b == self@.is_static(),
    {
        match self {
            File::Static(_) => true,
            File::Image(_) => true,
            _ => false,
        }
    }
}

/// How a file is served.
#[derive(Debug)]
pub enum ServePlan {
    /// The document is rendered, and the page is sent.
    Render,
    /// The content is sent as it is, with this content type where one is given.
    Content { content_type: Option<String> },
    /// Files of this kind are not served.
    UnknownHandler,
}

/// `mime_guess::from_path`, then `first_or_octet_stream`: the media type
/// that the extension of `path` stands for, as the platform reads the
/// extension off the path. Nothing is claimed of the result.
#[verifier::external_body]
fn guess_mime_type(path: &str) -> (r: String) {
    mime_guess::from_path(path).first_or_octet_stream().to_string()
}

impl File {
    /// How the file is served: documents are rendered, images are sent with
    /// the content type that their name suggests, static files are sent
    /// without one, and other files are not served.
    pub fn serve_plan(&self) -> (plan: ServePlan)
        ensures
            match self@ {
                FileView::Ftd(_) => plan is Render,
                FileView::Image(_) => plan is Content && plan->content_type is Some,
                FileView::Static(_) => plan is Content && plan->content_type is None,
                _ => plan is UnknownHandler,
            },
    {
        match self {
            File::Ftd(_) => ServePlan::Render,
            File::Image(image) => ServePlan::Content {
                content_type: Some(guess_mime_type(image.id.as_str())),
            },
            File::Static(_) => ServePlan::Content { content_type: None },
            _ => ServePlan::UnknownHandler,
        }
    }
}

} // verus!
