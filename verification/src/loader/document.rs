//! One ingested record, its sub-fields, and how a record is read from and
//! written as a JSON object.

use crate::json::{
    field, json_of_text, lemma_array_view, lemma_object_view, lookup, member_trees, read_json,
    same_text, text_of_json, trees, Json, JsonTree,
};
use vstd::prelude::*;

verus! {

/// Whether an image target is an image proper or another kind of file.
#[derive(Clone, Copy, Debug, PartialEq, Eq)]
pub enum ImageType {
    Image,
    File,
}

/// A reference to another page: off-site or inside the corpus.
#[derive(Debug, PartialEq, Eq)]
pub enum Link {
    ExternalLink { link_target: String },
    Link { link_target: String },
}

/// A caption: plain, or one that itself links elsewhere.
#[derive(Debug, PartialEq, Eq)]
pub enum Text {
    LinkText { text: String, link: Link },
    Text { text: String },
}

/// An image of a page.
#[derive(Debug, PartialEq, Eq)]
pub struct Image {
    pub target: String,
    pub target_type: ImageType,
    pub text: Text,
}

/// One ingested record.
#[derive(Debug, PartialEq, Eq)]
pub struct Document {
    pub id: String,
    pub revision_id: String,
    pub title: String,
    pub timestamp: String,
    pub contents: Vec<String>,
    pub headings: Vec<String>,
    pub categories: Vec<String>,
    pub images: Vec<Image>,
    pub links: Vec<Link>,
}

/// Why a line is not a document.
#[derive(Clone, Copy, Debug, PartialEq, Eq)]
pub enum MalformedRecord {
    /// The line is not valid JSON.
    InvalidJson,
    /// The line is JSON but does not have the shape of a document.
    InvalidDocument,
}

/// The mathematical value of a [`Link`].
pub ghost enum LinkView {
    ExternalLink { link_target: Seq<char> },
    Link { link_target: Seq<char> },
}

/// The mathematical value of a [`Text`].
pub ghost enum TextView {
    LinkText { text: Seq<char>, link: LinkView },
    Text { text: Seq<char> },
}

/// The mathematical value of an [`Image`].
pub ghost struct ImageView {
    pub target: Seq<char>,
    pub target_type: ImageType,
    pub text: TextView,
}

/// The mathematical value of a [`Document`].
pub ghost struct DocumentView {
    pub id: Seq<char>,
    pub revision_id: Seq<char>,
    pub title: Seq<char>,
    pub timestamp: Seq<char>,
    pub contents: Seq<Seq<char>>,
    pub headings: Seq<Seq<char>>,
    pub categories: Seq<Seq<char>>,
    pub images: Seq<ImageView>,
    pub links: Seq<LinkView>,
}

impl LinkView {
    /// The target, whichever the variant.
    pub open spec fn target(self) -> Seq<char> {
        match self {
            LinkView::ExternalLink { link_target } => link_target,
            LinkView::Link { link_target } => link_target,
        }
    }
}

impl View for Link {
    type V = LinkView;

    open spec fn view(&self) -> LinkView {
        match self {
            Link::ExternalLink { link_target } => LinkView::ExternalLink {
                link_target: link_target@,
            },
            Link::Link { link_target } => LinkView::Link { link_target: link_target@ },
        }
    }
}

impl View for Text {
    type V = TextView;

    open spec fn view(&self) -> TextView {
        match self {
            Text::LinkText { text, link } => TextView::LinkText { text: text@, link: link@ },
            Text::Text { text } => TextView::Text { text: text@ },
        }
    }
}

impl View for Image {
    type V = ImageView;

    open spec fn view(&self) -> ImageView {
        ImageView { target: self.target@, target_type: self.target_type, text: self.text@ }
    }
}

/// The views of a run of strings, in order.
pub open spec fn texts(items: Seq<String>) -> Seq<Seq<char>> {
    Seq::new(items.len(), |i: int| items[i]@)
}

/// The views of a run of images, in order.
pub open spec fn image_views(items: Seq<Image>) -> Seq<ImageView> {
    Seq::new(items.len(), |i: int| items[i]@)
}

/// The views of a run of links, in order.
pub open spec fn link_views(items: Seq<Link>) -> Seq<LinkView> {
    Seq::new(items.len(), |i: int| items[i]@)
}

impl View for Document {
    type V = DocumentView;

    open spec fn view(&self) -> DocumentView {
        DocumentView {
            id: self.id@,
            revision_id: self.revision_id@,
            title: self.title@,
            timestamp: self.timestamp@,
            contents: texts(self.contents@),
            headings: texts(self.headings@),
            categories: texts(self.categories@),
            images: image_views(self.images@),
            links: link_views(self.links@),
        }
    }
}

impl DocumentView {
    /// A document is well formed when its upload key is not empty.
    pub open spec fn wf(self) -> bool {
        self.id.len() > 0
    }
}

/// An array of text values.
pub open spec fn text_items(items: Seq<Seq<char>>) -> JsonTree {
    JsonTree::Array(Seq::new(items.len(), |i: int| JsonTree::Text(items[i])))
}

/// The name under which an image type is written.
pub open spec fn image_type_name(t: ImageType) -> Seq<char> {
    match t {
        ImageType::Image => "Image"@,
        ImageType::File => "File"@,
    }
}

/// A link is written as an object with its target; the variant is not written.
pub open spec fn link_tree(link: LinkView) -> JsonTree {
    JsonTree::Object(seq![("link_target"@, JsonTree::Text(link.target()))])
}

/// A caption is written as an object with its text, followed by the target of
/// its link where it has one.
pub open spec fn caption_tree(text: TextView) -> JsonTree {
    match text {
        TextView::LinkText { text, link } => JsonTree::Object(
            seq![("text"@, JsonTree::Text(text)), ("link_target"@, JsonTree::Text(link.target()))],
        ),
        TextView::Text { text } => JsonTree::Object(seq![("text"@, JsonTree::Text(text))]),
    }
}

/// An image is written as an object of target, type and caption.
pub open spec fn image_tree(image: ImageView) -> JsonTree {
    JsonTree::Object(
        seq![
            ("target"@, JsonTree::Text(image.target)),
            ("target_type"@, JsonTree::Text(image_type_name(image.target_type))),
            ("text"@, caption_tree(image.text)),
        ],
    )
}

/// An array of images.
pub open spec fn image_items(items: Seq<ImageView>) -> JsonTree {
    JsonTree::Array(Seq::new(items.len(), |i: int| image_tree(items[i])))
}

/// An array of links.
pub open spec fn link_items(items: Seq<LinkView>) -> JsonTree {
    JsonTree::Array(Seq::new(items.len(), |i: int| link_tree(items[i])))
}

/// The members of a document written as an object, in the order of the
/// document's fields.
pub open spec fn document_members(doc: DocumentView) -> Seq<(Seq<char>, JsonTree)> {
    seq![
        ("id"@, JsonTree::Text(doc.id)),
        ("revision_id"@, JsonTree::Text(doc.revision_id)),
        ("title"@, JsonTree::Text(doc.title)),
        ("timestamp"@, JsonTree::Text(doc.timestamp)),
        ("contents"@, text_items(doc.contents)),
        ("headings"@, text_items(doc.headings)),
        ("categories"@, text_items(doc.categories)),
        ("images"@, image_items(doc.images)),
        ("links"@, link_items(doc.links)),
    ]
}

/// A document written as a JSON object.
pub open spec fn document_tree(doc: DocumentView) -> JsonTree {
    JsonTree::Object(document_members(doc))
}

/// A member of an object under construction.
pub fn member(key: &str, value: Json) -> (r: (String, Json))
    ensures
        r.0@ == key@,
        r.1@ == value@,
{
    (key.to_owned(), value)
}

/// An array holding a copy of each string as a text value.
pub fn text_array(items: &Vec<String>) -> (r: Json)
    ensures
        r@ == text_items(texts(items@)),
{
    let mut out: Vec<Json> = Vec::new();
    let mut i: usize = 0;
    while i < items.len()
        invariant
            0 <= i <= items.len(),
            out.len() == i,
            forall|j: int| 0 <= j < i ==> (#[trigger] out[j])@ == JsonTree::Text(items[j]@),
        decreases items.len() - i,
    {
        out.push(Json::Text(items[i].clone()));
        i += 1;
    }
    let r = Json::Array(out);
    proof {
        lemma_array_view(r);
        assert(trees(out@) =~= text_items(texts(items@))->Array_0);
    }
    r
}

impl ImageType {
    /// The name under which this type is written.
    pub fn name(&self) -> (r: &'static str)
        ensures
            r@ == image_type_name(*self),
    {
        match self {
            ImageType::Image => "Image",
            ImageType::File => "File",
        }
    }
}

impl Link {
    /// The target, whichever the variant.
    pub fn target(&self) -> (r: &String)
        ensures
            r@ == self@.target(),
    {
        match self {
            Link::ExternalLink { link_target } => link_target,
            Link::Link { link_target } => link_target,
        }
    }

    /// This link as a JSON object.
    pub fn to_json(&self) -> (r: Json)
        ensures
            r@ == link_tree(self@),
    {
        let mut members: Vec<(String, Json)> = Vec::new();
        members.push(member("link_target", Json::Text(self.target().clone())));
        let r = Json::Object(members);
        proof {
            lemma_object_view(r);
            assert(member_trees(members@) =~= link_tree(self@)->Object_0);
        }
        r
    }
}

impl Text {
    /// This caption as a JSON object.
    pub fn to_json(&self) -> (r: Json)
        ensures
            r@ == caption_tree(self@),
    {
        let mut members: Vec<(String, Json)> = Vec::new();
        match self {
            Text::LinkText { text, link } => {
                members.push(member("text", Json::Text(text.clone())));
                members.push(member("link_target", Json::Text(link.target().clone())));
            },
            Text::Text { text } => {
                members.push(member("text", Json::Text(text.clone())));
            },
        }
        let r = Json::Object(members);
        proof {
            lemma_object_view(r);
            assert(member_trees(members@) =~= caption_tree(self@)->Object_0);
        }
        r
    }
}

impl Image {
    /// This image as a JSON object.
    pub fn to_json(&self) -> (r: Json)
        ensures
            r@ == image_tree(self@),
    {
        let mut members: Vec<(String, Json)> = Vec::new();
        members.push(member("target", Json::Text(self.target.clone())));
        members.push(member("target_type", Json::text(self.target_type.name())));
        members.push(member("text", self.text.to_json()));
        let r = Json::Object(members);
        proof {
            lemma_object_view(r);
            assert(member_trees(members@) =~= image_tree(self@)->Object_0);
        }
        r
    }
}

/// An array holding each image as a JSON object.
pub fn image_array(items: &Vec<Image>) -> (r: Json)
    ensures
        r@ == image_items(image_views(items@)),
{
    let mut out: Vec<Json> = Vec::new();
    let mut i: usize = 0;
    while i < items.len()
        invariant
            0 <= i <= items.len(),
            out.len() == i,
            forall|j: int| 0 <= j < i ==> (#[trigger] out[j])@ == image_tree(items[j]@),
        decreases items.len() - i,
    {
        out.push(items[i].to_json());
        i += 1;
    }
    let r = Json::Array(out);
    proof {
        lemma_array_view(r);
        assert(trees(out@) =~= image_items(image_views(items@))->Array_0);
    }
    r
}

/// An array holding each link as a JSON object.
pub fn link_array(items: &Vec<Link>) -> (r: Json)
    ensures
        r@ == link_items(link_views(items@)),
{
    let mut out: Vec<Json> = Vec::new();
    let mut i: usize = 0;
    while i < items.len()
        invariant
            0 <= i <= items.len(),
            out.len() == i,
            forall|j: int| 0 <= j < i ==> (#[trigger] out[j])@ == link_tree(items[j]@),
        decreases items.len() - i,
    {
        out.push(items[i].to_json());
        i += 1;
    }
    let r = Json::Array(out);
    proof {
        lemma_array_view(r);
        assert(trees(out@) =~= link_items(link_views(items@))->Array_0);
    }
    r
}

impl Document {
    /// Whether this document has an upload key.
    pub fn has_key(&self) -> (r: bool)
        ensures
            r == self@.wf(),
    {
        !self.id.as_str().is_empty()
    }

    /// The members of this document written as an object.
    pub fn to_members(&self) -> (r: Vec<(String, Json)>)
        ensures
            member_trees(r@) == document_members(self@),
    {
        let mut members: Vec<(String, Json)> = Vec::new();
        members.push(member("id", Json::Text(self.id.clone())));
        members.push(member("revision_id", Json::Text(self.revision_id.clone())));
        members.push(member("title", Json::Text(self.title.clone())));
        members.push(member("timestamp", Json::Text(self.timestamp.clone())));
        members.push(member("contents", text_array(&self.contents)));
        members.push(member("headings", text_array(&self.headings)));
        members.push(member("categories", text_array(&self.categories)));
        members.push(member("images", image_array(&self.images)));
        members.push(member("links", link_array(&self.links)));
        assert(member_trees(members@) =~= document_members(self@));
        members
    }

    /// This document as a JSON object.
    pub fn to_json(&self) -> (r: Json)
        ensures
            r@ == document_tree(self@),
    {
        let r = Json::Object(self.to_members());
        proof {
            lemma_object_view(r);
        }
        r
    }
}

/// The text of a text value that is there.
pub open spec fn as_text(tree: Option<JsonTree>) -> Option<Seq<char>> {
    match tree {
        Some(JsonTree::Text(s)) => Some(s),
        _ => None,
    }
}

/// A text member that may be left out: absent reads as the empty text, and
/// anything but a text value is refused.
pub open spec fn optional_text(tree: Option<JsonTree>) -> Option<Seq<char>> {
    match tree {
        None => Some(Seq::empty()),
        Some(JsonTree::Text(s)) => Some(s),
        Some(_) => None,
    }
}

/// The texts of a run of values that are all text values.
pub open spec fn text_run(items: Seq<JsonTree>) -> Option<Seq<Seq<char>>> {
    if forall|i: int| 0 <= i < items.len() ==> (#[trigger] items[i]) is Text {
        Some(Seq::new(items.len(), |i: int| items[i]->Text_0))
    } else {
        None
    }
}

/// A list of texts that may be left out: absent reads as the empty list, and
/// anything but an array of text values is refused.
pub open spec fn optional_text_list(tree: Option<JsonTree>) -> Option<Seq<Seq<char>>> {
    match tree {
        None => Some(Seq::empty()),
        Some(JsonTree::Array(items)) => text_run(items),
        Some(_) => None,
    }
}

/// A link is read from an object with a text member `link_target`. Both
/// variants are written alike, so the first one is what is read.
pub open spec fn decode_link(tree: JsonTree) -> Option<LinkView> {
    match as_text(field(tree, "link_target"@)) {
        Some(link_target) => Some(LinkView::ExternalLink { link_target }),
        None => None,
    }
}

/// A caption is read from an object with a text member `text`: as a linking
/// caption where the object also reads as a link, as a plain one otherwise.
pub open spec fn decode_caption(tree: JsonTree) -> Option<TextView> {
    match as_text(field(tree, "text"@)) {
        Some(text) => Some(
            match decode_link(tree) {
                Some(link) => TextView::LinkText { text, link },
                None => TextView::Text { text },
            },
        ),
        None => None,
    }
}

/// The image type that a name stands for.
pub open spec fn decode_image_type(name: Seq<char>) -> Option<ImageType> {
    if name == "Image"@ {
        Some(ImageType::Image)
    } else if name == "File"@ {
        Some(ImageType::File)
    } else {
        None
    }
}

/// An image is read from an object with a text member `target`, a member
/// `target_type` that names an image type, and a member `text` that reads as
/// a caption.
pub open spec fn decode_image(tree: JsonTree) -> Option<ImageView> {
    match (as_text(field(tree, "target"@)), as_text(field(tree, "target_type"@)), field(tree, "text"@)) {
        (Some(target), Some(name), Some(caption)) => match (
            decode_image_type(name),
            decode_caption(caption),
        ) {
            (Some(target_type), Some(text)) => Some(ImageView { target, target_type, text }),
            _ => None,
        },
        _ => None,
    }
}

/// The images of a run of values that all read as images.
pub open spec fn image_run(items: Seq<JsonTree>) -> Option<Seq<ImageView>> {
    if forall|i: int| 0 <= i < items.len() ==> decode_image(#[trigger] items[i]) is Some {
        Some(Seq::new(items.len(), |i: int| decode_image(items[i])->0))
    } else {
        None
    }
}

/// The links of a run of values that all read as links.
pub open spec fn link_run(items: Seq<JsonTree>) -> Option<Seq<LinkView>> {
    if forall|i: int| 0 <= i < items.len() ==> decode_link(#[trigger] items[i]) is Some {
        Some(Seq::new(items.len(), |i: int| decode_link(items[i])->0))
    } else {
        None
    }
}

/// A list of images that may be left out.
pub open spec fn optional_image_list(tree: Option<JsonTree>) -> Option<Seq<ImageView>> {
    match tree {
        None => Some(Seq::empty()),
        Some(JsonTree::Array(items)) => image_run(items),
        Some(_) => None,
    }
}

/// A list of links that may be left out.
pub open spec fn optional_link_list(tree: Option<JsonTree>) -> Option<Seq<LinkView>> {
    match tree {
        None => Some(Seq::empty()),
        Some(JsonTree::Array(items)) => link_run(items),
        Some(_) => None,
    }
}

/// A document is read from an object. Its `id` must be there, as a text that
/// is not empty. Every other member may be left out and then reads as empty;
/// one that is there must have the shape of its field.
pub open spec fn decode_document(tree: JsonTree) -> Option<DocumentView> {
    let id = as_text(field(tree, "id"@));
    let revision_id = optional_text(field(tree, "revision_id"@));
    let title = optional_text(field(tree, "title"@));
    let timestamp = optional_text(field(tree, "timestamp"@));
    let contents = optional_text_list(field(tree, "contents"@));
    let headings = optional_text_list(field(tree, "headings"@));
    let categories = optional_text_list(field(tree, "categories"@));
    let images = optional_image_list(field(tree, "images"@));
    let links = optional_link_list(field(tree, "links"@));
    if id is Some && id->0.len() > 0 && revision_id is Some && title is Some && timestamp is Some
        && contents is Some && headings is Some && categories is Some && images is Some
        && links is Some {
        Some(
            DocumentView {
                id: id->0,
                revision_id: revision_id->0,
                title: title->0,
                timestamp: timestamp->0,
                contents: contents->0,
                headings: headings->0,
                categories: categories->0,
                images: images->0,
                links: links->0,
            },
        )
    } else {
        None
    }
}

/// What a line reads as: a document, or the reason why it is none.
pub open spec fn parse_line(line: Seq<char>) -> Result<DocumentView, MalformedRecord> {
    match json_of_text(line) {
        None => Err(MalformedRecord::InvalidJson),
        Some(tree) => match decode_document(tree) {
            Some(doc) => Ok(doc),
            None => Err(MalformedRecord::InvalidDocument),
        },
    }
}

/// The view of a value that may be there.
pub open spec fn tree_of(json: Option<&Json>) -> Option<JsonTree> {
    match json {
        Some(j) => Some(j@),
        None => None,
    }
}

/// A copy of the text of a text value that is there.
pub fn read_text(json: Option<&Json>) -> (r: Option<String>)
    ensures
        match as_text(tree_of(json)) {
            Some(s) => r matches Some(t) && t@ == s,
            None => r is None,
        },
{
    match json {
        Some(Json::Text(s)) => Some(s.clone()),
        _ => None,
    }
}

/// A copy of a text member that may be left out.
pub fn read_optional_text(json: Option<&Json>) -> (r: Option<String>)
    ensures
        match optional_text(tree_of(json)) {
            Some(s) => r matches Some(t) && t@ == s,
            None => r is None,
        },
{
    match json {
        None => Some(String::new()),
        Some(Json::Text(s)) => Some(s.clone()),
        Some(_) => None,
    }
}

/// Copies of the texts of a list of text values that may be left out.
pub fn read_optional_text_list(json: Option<&Json>) -> (r: Option<Vec<String>>)
    ensures
        match optional_text_list(tree_of(json)) {
            Some(s) => r matches Some(t) && texts(t@) == s,
            None => r is None,
        },
{
    match json {
        None => {
            let out: Vec<String> = Vec::new();
            assert(texts(out@) =~= Seq::<Seq<char>>::empty());
            Some(out)
        },
        Some(Json::Array(items)) => {
            let ghost all = trees(items@);
            proof {
                lemma_array_view(*json.unwrap());
            }
            let mut out: Vec<String> = Vec::new();
            let mut i: usize = 0;
            while i < items.len()
                invariant
                    0 <= i <= items.len(),
                    all == trees(items@),
                    tree_of(json) == Some(JsonTree::Array(all)),
                    out.len() == i,
                    forall|j: int| 0 <= j < i ==> (#[trigger] all[j]) is Text,
                    forall|j: int| 0 <= j < i ==> (#[trigger] out[j])@ == all[j]->Text_0,
                decreases items.len() - i,
            {
                match &items[i] {
                    Json::Text(s) => {
                        out.push(s.clone());
                    },
                    _ => {
                        assert(!(all[i as int] is Text));
                        return None;
                    },
                }
                i += 1;
            }
            assert(texts(out@) =~= text_run(all)->0);
            Some(out)
        },
        Some(_) => None,
    }
}

impl Link {
    /// Reads a link from a JSON value.
    pub fn from_json(json: &Json) -> (r: Option<Link>)
        ensures
            match decode_link(json@) {
                Some(link) => r matches Some(l) && l@ == link,
                None => r is None,
            },
    {
        match read_text(json.get("link_target")) {
            Some(link_target) => Some(Link::ExternalLink { link_target }),
            None => None,
        }
    }
}

impl Text {
    /// Reads a caption from a JSON value.
    pub fn from_json(json: &Json) -> (r: Option<Text>)
        ensures
            match decode_caption(json@) {
                Some(text) => r matches Some(t) && t@ == text,
                None => r is None,
            },
    {
        match read_text(json.get("text")) {
            Some(text) => match Link::from_json(json) {
                Some(link) => Some(Text::LinkText { text, link }),
                None => Some(Text::Text { text }),
            },
            None => None,
        }
    }
}

impl ImageType {
    /// The image type that `name` stands for.
    pub fn from_name(name: &str) -> (r: Option<ImageType>)
        ensures
            r == decode_image_type(name@),
    {
        if same_text(name, "Image") {
            Some(ImageType::Image)
        } else if same_text(name, "File") {
            Some(ImageType::File)
        } else {
            None
        }
    }
}

impl Image {
    /// Reads an image from a JSON value.
    pub fn from_json(json: &Json) -> (r: Option<Image>)
        ensures
            match decode_image(json@) {
                Some(image) => r matches Some(i) && i@ == image,
                None => r is None,
            },
    {
        let target = match read_text(json.get("target")) {
            Some(target) => target,
            None => {
                return None;
            },
        };
        let target_type = match read_text(json.get("target_type")) {
            Some(name) => match ImageType::from_name(name.as_str()) {
                Some(target_type) => target_type,
                None => {
                    return None;
                },
            },
            None => {
                return None;
            },
        };
        let text = match json.get("text") {
            Some(caption) => match Text::from_json(caption) {
                Some(text) => text,
                None => {
                    return None;
                },
            },
            None => {
                return None;
            },
        };
        Some(Image { target, target_type, text })
    }
}

/// Reads a list of images that may be left out.
pub fn read_optional_image_list(json: Option<&Json>) -> (r: Option<Vec<Image>>)
    ensures
        match optional_image_list(tree_of(json)) {
            Some(s) => r matches Some(t) && image_views(t@) == s,
            None => r is None,
        },
{
    match json {
        None => {
            let out: Vec<Image> = Vec::new();
            assert(image_views(out@) =~= Seq::<ImageView>::empty());
            Some(out)
        },
        Some(Json::Array(items)) => {
            let ghost all = trees(items@);
            proof {
                lemma_array_view(*json.unwrap());
            }
            let mut out: Vec<Image> = Vec::new();
            let mut i: usize = 0;
            while i < items.len()
                invariant
                    0 <= i <= items.len(),
                    all == trees(items@),
                    tree_of(json) == Some(JsonTree::Array(all)),
                    out.len() == i,
                    forall|j: int| 0 <= j < i ==> decode_image(#[trigger] all[j]) is Some,
                    forall|j: int| 0 <= j < i ==> (#[trigger] out[j])@ == decode_image(all[j])->0,
                decreases items.len() - i,
            {
                match Image::from_json(&items[i]) {
                    Some(image) => {
                        out.push(image);
                    },
                    None => {
                        assert(decode_image(all[i as int]) is None);
                        return None;
                    },
                }
                i += 1;
            }
            assert(image_views(out@) =~= image_run(all)->0);
            Some(out)
        },
        Some(_) => None,
    }
}

/// Reads a list of links that may be left out.
pub fn read_optional_link_list(json: Option<&Json>) -> (r: Option<Vec<Link>>)
    ensures
        match optional_link_list(tree_of(json)) {
            Some(s) => r matches Some(t) && link_views(t@) == s,
            None => r is None,
        },
{
    match json {
        None => {
            let out: Vec<Link> = Vec::new();
            assert(link_views(out@) =~= Seq::<LinkView>::empty());
            Some(out)
        },
        Some(Json::Array(items)) => {
            let ghost all = trees(items@);
            proof {
                lemma_array_view(*json.unwrap());
            }
            let mut out: Vec<Link> = Vec::new();
            let mut i: usize = 0;
            while i < items.len()
                invariant
                    0 <= i <= items.len(),
                    all == trees(items@),
                    tree_of(json) == Some(JsonTree::Array(all)),
                    out.len() == i,
                    forall|j: int| 0 <= j < i ==> decode_link(#[trigger] all[j]) is Some,
                    forall|j: int| 0 <= j < i ==> (#[trigger] out[j])@ == decode_link(all[j])->0,
                decreases items.len() - i,
            {
                match Link::from_json(&items[i]) {
                    Some(link) => {
                        out.push(link);
                    },
                    None => {
                        assert(decode_link(all[i as int]) is None);
                        return None;
                    },
                }
                i += 1;
            }
            assert(link_views(out@) =~= link_run(all)->0);
            Some(out)
        },
        Some(_) => None,
    }
}

impl Document {
    /// Reads a document from a JSON value.
    pub fn from_json(json: &Json) -> (r: Option<Document>)
        ensures
            match decode_document(json@) {
                Some(doc) => r matches Some(d) && d@ == doc,
                None => r is None,
            },
            r matches Some(d) ==> d@.wf(),
    {
        let id = match read_text(json.get("id")) {
            Some(id) => id,
            None => {
                return None;
            },
        };
        if id.as_str().is_empty() {
            return None;
        }
        let revision_id = match read_optional_text(json.get("revision_id")) {
            Some(x) => x,
            None => {
                return None;
            },
        };
        let title = match read_optional_text(json.get("title")) {
            Some(x) => x,
            None => {
                return None;
            },
        };
        let timestamp = match read_optional_text(json.get("timestamp")) {
            Some(x) => x,
            None => {
                return None;
            },
        };
        let contents = match read_optional_text_list(json.get("contents")) {
            Some(x) => x,
            None => {
                return None;
            },
        };
        let headings = match read_optional_text_list(json.get("headings")) {
            Some(x) => x,
            None => {
                return None;
            },
        };
        let categories = match read_optional_text_list(json.get("categories")) {
            Some(x) => x,
            None => {
                return None;
            },
        };
        let images = match read_optional_image_list(json.get("images")) {
            Some(x) => x,
            None => {
                return None;
            },
        };
        let links = match read_optional_link_list(json.get("links")) {
            Some(x) => x,
            None => {
                return None;
            },
        };
        Some(
            Document {
                id,
                revision_id,
                title,
                timestamp,
                contents,
                headings,
                categories,
                images,
                links,
            },
        )
    }

    /// Reads one line of input as a document.
    pub fn new(line: &str) -> (r: Result<Document, MalformedRecord>)
        ensures
            match parse_line(line@) {
                Ok(doc) => r matches Ok(d) && d@ == doc,
                Err(e) => r == Err::<Document, MalformedRecord>(e),
            },
            r matches Ok(d) ==> d@.wf(),
    {
        match read_json(line) {
            None => Err(MalformedRecord::InvalidJson),
            Some(json) => match Document::from_json(&json) {
                Some(doc) => Ok(doc),
                None => Err(MalformedRecord::InvalidDocument),
            },
        }
    }

    /// This document as one line of JSON text.
    pub fn to_json_string(&self) -> (r: String)
        ensures
            r@ == text_of_json(document_tree(self@)),
    {
        self.to_json().to_text()
    }
}

/// The link that is read back from a written link: the variant is lost.
pub open spec fn wire_link(link: LinkView) -> LinkView {
    LinkView::ExternalLink { link_target: link.target() }
}

/// The caption that is read back from a written caption.
pub open spec fn wire_caption(text: TextView) -> TextView {
    match text {
        TextView::LinkText { text, link } => TextView::LinkText { text, link: wire_link(link) },
        TextView::Text { text } => TextView::Text { text },
    }
}

/// The image that is read back from a written image.
pub open spec fn wire_image(image: ImageView) -> ImageView {
    ImageView { target: image.target, target_type: image.target_type, text: wire_caption(image.text) }
}

/// The document that is read back from a written document: all of it but the
/// variants of its links.
pub open spec fn wire_form(doc: DocumentView) -> DocumentView {
    DocumentView {
        images: Seq::new(doc.images.len(), |i: int| wire_image(doc.images[i])),
        links: Seq::new(doc.links.len(), |i: int| wire_link(doc.links[i])),
        ..doc
    }
}

/// Where the member at `i` is the first one named `key`, `lookup` finds it.
pub proof fn lemma_lookup_at(members: Seq<(Seq<char>, JsonTree)>, key: Seq<char>, i: int)
    requires
        0 <= i < members.len(),
        members[i].0 == key,
        forall|j: int| 0 <= j < i ==> (#[trigger] members[j]).0 != key,
    ensures
        lookup(members, key) == Some(members[i].1),
    decreases i,
{
    if i > 0 {
        let rest = members.skip(1);
        assert(members[0].0 != key);
        assert forall|j: int| 0 <= j < i - 1 implies (#[trigger] rest[j]).0 != key by {
            assert(rest[j] == members[j + 1]);
        }
        lemma_lookup_at(rest, key, i - 1);
    }
}

/// Where no member is named `key`, `lookup` finds none.
pub proof fn lemma_lookup_none(members: Seq<(Seq<char>, JsonTree)>, key: Seq<char>)
    requires
        forall|j: int| 0 <= j < members.len() ==> (#[trigger] members[j]).0 != key,
    ensures
        lookup(members, key) is None,
    decreases members.len(),
{
    if members.len() > 0 {
        let rest = members.skip(1);
        assert(members[0].0 != key);
        assert forall|j: int| 0 <= j < rest.len() implies (#[trigger] rest[j]).0 != key by {
            assert(rest[j] == members[j + 1]);
        }
        lemma_lookup_none(rest, key);
    }
}

/// The names of a document's members differ from one another.
pub proof fn lemma_document_keys_differ()
    ensures
        "id"@ != "revision_id"@,
        "id"@ != "title"@,
        "id"@ != "timestamp"@,
        "id"@ != "contents"@,
        "id"@ != "headings"@,
        "id"@ != "categories"@,
        "id"@ != "images"@,
        "id"@ != "links"@,
        "revision_id"@ != "title"@,
        "revision_id"@ != "timestamp"@,
        "revision_id"@ != "contents"@,
        "revision_id"@ != "headings"@,
        "revision_id"@ != "categories"@,
        "revision_id"@ != "images"@,
        "revision_id"@ != "links"@,
        "title"@ != "timestamp"@,
        "title"@ != "contents"@,
        "title"@ != "headings"@,
        "title"@ != "categories"@,
        "title"@ != "images"@,
        "title"@ != "links"@,
        "timestamp"@ != "contents"@,
        "timestamp"@ != "headings"@,
        "timestamp"@ != "categories"@,
        "timestamp"@ != "images"@,
        "timestamp"@ != "links"@,
        "contents"@ != "headings"@,
        "contents"@ != "categories"@,
        "contents"@ != "images"@,
        "contents"@ != "links"@,
        "headings"@ != "categories"@,
        "headings"@ != "images"@,
        "headings"@ != "links"@,
        "categories"@ != "images"@,
        "categories"@ != "links"@,
        "images"@ != "links"@,
{
    reveal_strlit("id");
    reveal_strlit("revision_id");
    reveal_strlit("title");
    reveal_strlit("timestamp");
    reveal_strlit("contents");
    reveal_strlit("headings");
    reveal_strlit("categories");
    reveal_strlit("images");
    reveal_strlit("links");
    assert("id"@.len() == 2);
    assert("revision_id"@.len() == 11);
    assert("title"@.len() == 5);
    assert("timestamp"@.len() == 9);
    assert("contents"@.len() == 8);
    assert("headings"@.len() == 8);
    assert("categories"@.len() == 10);
    assert("images"@.len() == 6);
    assert("links"@.len() == 5);
    assert("title"@[0] != "links"@[0]);
    assert("contents"@[0] != "headings"@[0]);
}

/// The names of the members of images, captions and links differ from one
/// another, and so do the names of the image types.
pub proof fn lemma_image_keys_differ()
    ensures
        "target"@ != "target_type"@,
        "target"@ != "text"@,
        "target_type"@ != "text"@,
        "text"@ != "link_target"@,
        "Image"@ != "File"@,
{
    reveal_strlit("target");
    reveal_strlit("target_type");
    reveal_strlit("text");
    reveal_strlit("link_target");
    reveal_strlit("Image");
    reveal_strlit("File");
    assert("target"@.len() == 6);
    assert("target_type"@.len() == 11);
    assert("text"@.len() == 4);
    assert("link_target"@.len() == 11);
    assert("Image"@.len() == 5);
    assert("File"@.len() == 4);
}

/// A written link reads back as an external link with the same target.
pub proof fn lemma_link_round_trip(link: LinkView)
    ensures
        decode_link(link_tree(link)) == Some(wire_link(link)),
{
    lemma_lookup_at(link_tree(link)->Object_0, "link_target"@, 0);
}

/// A written caption reads back with the same text.
pub proof fn lemma_caption_round_trip(text: TextView)
    ensures
        decode_caption(caption_tree(text)) == Some(wire_caption(text)),
{
    lemma_image_keys_differ();
    let members = caption_tree(text)->Object_0;
    lemma_lookup_at(members, "text"@, 0);
    match text {
        TextView::LinkText { text, link } => {
            lemma_lookup_at(members, "link_target"@, 1);
        },
        TextView::Text { text } => {
            lemma_lookup_none(members, "link_target"@);
        },
    }
}

/// A written image reads back with the same target, type and caption text.
pub proof fn lemma_image_round_trip(image: ImageView)
    ensures
        decode_image(image_tree(image)) == Some(wire_image(image)),
{
    lemma_image_keys_differ();
    let members = image_tree(image)->Object_0;
    lemma_lookup_at(members, "target"@, 0);
    lemma_lookup_at(members, "target_type"@, 1);
    lemma_lookup_at(members, "text"@, 2);
    lemma_caption_round_trip(image.text);
}

/// A written document reads back as itself, but for the variants of its
/// links.
pub proof fn lemma_write_then_read(doc: DocumentView)
    requires
        doc.wf(),
    ensures
        decode_document(document_tree(doc)) == Some(wire_form(doc)),
        wire_form(doc).id == doc.id,
        wire_form(doc).revision_id == doc.revision_id,
        wire_form(doc).title == doc.title,
        wire_form(doc).timestamp == doc.timestamp,
        wire_form(doc).contents == doc.contents,
        wire_form(doc).headings == doc.headings,
        wire_form(doc).categories == doc.categories,
{
    lemma_document_keys_differ();
    let members = document_members(doc);
    let tree = document_tree(doc);
    lemma_lookup_at(members, "id"@, 0);
    lemma_lookup_at(members, "revision_id"@, 1);
    lemma_lookup_at(members, "title"@, 2);
    lemma_lookup_at(members, "timestamp"@, 3);
    lemma_lookup_at(members, "contents"@, 4);
    lemma_lookup_at(members, "headings"@, 5);
    lemma_lookup_at(members, "categories"@, 6);
    lemma_lookup_at(members, "images"@, 7);
    lemma_lookup_at(members, "links"@, 8);
    assert(optional_text_list(field(tree, "contents"@)) == Some(doc.contents)) by {
        assert(text_run(text_items(doc.contents)->Array_0)->0 =~= doc.contents);
    }
    assert(optional_text_list(field(tree, "headings"@)) == Some(doc.headings)) by {
        assert(text_run(text_items(doc.headings)->Array_0)->0 =~= doc.headings);
    }
    assert(optional_text_list(field(tree, "categories"@)) == Some(doc.categories)) by {
        assert(text_run(text_items(doc.categories)->Array_0)->0 =~= doc.categories);
    }
    assert(optional_image_list(field(tree, "images"@)) == Some(wire_form(doc).images)) by {
        let items = image_items(doc.images)->Array_0;
        assert forall|i: int| 0 <= i < items.len() implies decode_image(#[trigger] items[i])
            == Some(wire_image(doc.images[i])) by {
            lemma_image_round_trip(doc.images[i]);
        }
        assert(image_run(items)->0 =~= wire_form(doc).images);
    }
    assert(optional_link_list(field(tree, "links"@)) == Some(wire_form(doc).links)) by {
        let items = link_items(doc.links)->Array_0;
        assert forall|i: int| 0 <= i < items.len() implies decode_link(#[trigger] items[i])
            == Some(wire_link(doc.links[i])) by {
            lemma_link_round_trip(doc.links[i]);
        }
        assert(link_run(items)->0 =~= wire_form(doc).links);
    }
}

/// Every document that is read from a JSON value is in wire form: reading
/// yields no link of the in-corpus variant.
pub proof fn lemma_read_is_wire_form(tree: JsonTree, doc: DocumentView)
    requires
        decode_document(tree) == Some(doc),
    ensures
        doc.wf(),
        wire_form(doc) == doc,
{
    assert forall|i: int| 0 <= i < doc.images.len() implies wire_image(#[trigger] doc.images[i])
        == doc.images[i] by {
        let items = field(tree, "images"@)->0->Array_0;
        assert(decode_image(items[i]) is Some);
    }
    assert forall|i: int| 0 <= i < doc.links.len() implies wire_link(#[trigger] doc.links[i])
        == doc.links[i] by {
        let items = field(tree, "links"@)->0->Array_0;
        assert(decode_link(items[i]) is Some);
    }
    assert(wire_form(doc).images =~= doc.images);
    assert(wire_form(doc).links =~= doc.links);
}

/// Round trip: a document that was read from a JSON value, written again and
/// read again is the same document, with the same `id`, `title` and ordered
/// `contents`, `headings` and `categories`.
pub proof fn lemma_read_write_read(tree: JsonTree, doc: DocumentView)
    requires
        decode_document(tree) == Some(doc),
    ensures
        decode_document(document_tree(doc)) == Some(doc),
{
    lemma_read_is_wire_form(tree, doc);
    lemma_write_then_read(doc);
}

/// Round trip law for lines: the document that a line reads as, written as
/// a JSON object, reads back as the same document; the object holds the
/// same `id` as the line, and the same `title` and ordered `contents`,
/// `headings` and `categories` as the document.
pub proof fn lemma_line_round_trip(line: Seq<char>, doc: DocumentView)
    requires
        parse_line(line) == Ok::<DocumentView, MalformedRecord>(doc),
    ensures
        decode_document(document_tree(doc)) == Some(doc),
        field(document_tree(doc), "id"@) == field(json_of_text(line)->0, "id"@),
        field(document_tree(doc), "title"@) == Some(JsonTree::Text(doc.title)),
        field(document_tree(doc), "contents"@) == Some(text_items(doc.contents)),
        field(document_tree(doc), "headings"@) == Some(text_items(doc.headings)),
        field(document_tree(doc), "categories"@) == Some(text_items(doc.categories)),
{
    let tree = json_of_text(line)->0;
    lemma_read_write_read(tree, doc);
    lemma_document_keys_differ();
    let members = document_members(doc);
    lemma_lookup_at(members, "id"@, 0);
    lemma_lookup_at(members, "title"@, 2);
    lemma_lookup_at(members, "contents"@, 4);
    lemma_lookup_at(members, "headings"@, 5);
    lemma_lookup_at(members, "categories"@, 6);
}

} // verus!
