use vstd::prelude::*;

use crate::icons::{ascii_lower, ascii_lowercase};
use crate::text::{chars_of, str_eq, string_of};

verus! {

/// What UDisks2 tells of a drive.
#[derive(Debug, Clone)]
pub struct DriveProperties {
    pub model: String,
    pub vendor: String,
    pub serial: String,
    pub size: u64,
    pub connection_bus: String,
    pub ejectable: bool,
}

impl Default for DriveProperties {
    fn default() -> (d: Self)
        ensures
            d.model@.len() == 0,
            d.vendor@.len() == 0,
            d.serial@.len() == 0,
            d.size == 0,
            d.connection_bus@.len() == 0,
            !d.ejectable,
    {
        DriveProperties {
            model: String::new(),
            vendor: String::new(),
            serial: String::new(),
            size: 0,
            connection_bus: String::new(),
            ejectable: false,
        }
    }
}

/// A step of the file manager's navigation: from one folder to another. Doing it shows the
/// target, undoing it the origin again.
#[derive(Debug, Clone)]
pub struct Navigate {
    pub from: String,
    pub to: String,
}

impl Navigate {
    /// Goes to the target folder.
    pub fn edit(&self, current: &mut String)
        ensures
            final(current)@ == self.to@,
    {
        *current = self.to.clone();
    }

    /// Goes back to the folder the step started from.
    pub fn undo(&self, current: &mut String)
        ensures
            final(current)@ == self.from@,
    {
        *current = self.from.clone();
    }

    /// Goes to the target folder again.
    pub fn redo(&self, current: &mut String)
        ensures
            final(current)@ == self.to@,
    {
        *current = self.to.clone();
    }
}

/// Undoing a navigation step that was just done returns to the folder it started from,
/// and redoing it goes to its target again.
pub proof fn lemma_undo_returns(step: Navigate, current: Seq<char>)
    requires
        current == step.from@,
    ensures
        ({
            let after_edit = step.to@;
            let after_undo = step.from@;
            let after_redo = step.to@;
            after_undo == current && after_redo == after_edit
        }),
{
}

/// Whether a file name is hidden: it begins with a dot.
pub open spec fn is_hidden_name(name: Seq<char>) -> bool {
    name.len() > 0 && name[0] == '.'
}

/// Whether a file name is hidden.
pub fn is_hidden(name: &str) -> (r: bool)
    ensures
        r == is_hidden_name(name@),
{
    let c = chars_of(name);
    c.len() > 0 && c[0] == '.'
}

/// The icon of a folder or file.
#[derive(Debug, Clone, Copy, PartialEq, Eq, Structural)]
pub enum FileIcon {
    Folder,
    FolderDashed,
    Pdf,
    Archive,
    Rust,
    C,
    Cpp,
    CSharp,
    Js,
    Jsx,
    Ts,
    Tsx,
    Py,
    Css,
    Html,
    Vue,
    Sql,
    Markdown,
    Ini,
    Txt,
    Csv,
    Png,
    Jpg,
    Svg,
    Doc,
    Xls,
    Ppt,
    Image,
    Video,
    Audio,
    Text,
    File,
}

/// Whether a text is one of the listed ones.
pub open spec fn one_of(s: Seq<char>, options: Seq<Seq<char>>) -> bool {
    options.contains(s)
}

/// The icon that an extension (in lower case) asks for, if it is a known one.
pub open spec fn extension_icon_spec(ext: Seq<char>) -> Option<FileIcon> {
    if ext == "pdf"@ {
        Some(FileIcon::Pdf)
    } else if one_of(ext, seq!["zip"@, "7z"@, "rar"@, "tar"@, "gz"@, "xz"@]) {
        Some(FileIcon::Archive)
    } else if ext == "rs"@ {
        Some(FileIcon::Rust)
    } else if one_of(ext, seq!["c"@, "h"@]) {
        Some(FileIcon::C)
    } else if one_of(ext, seq!["cpp"@, "cc"@, "cxx"@, "hpp"@, "hh"@]) {
        Some(FileIcon::Cpp)
    } else if ext == "cs"@ {
        Some(FileIcon::CSharp)
    } else if one_of(ext, seq!["js"@, "mjs"@, "cjs"@]) {
        Some(FileIcon::Js)
    } else if ext == "jsx"@ {
        Some(FileIcon::Jsx)
    } else if one_of(ext, seq!["ts"@, "mts"@, "cts"@]) {
        Some(FileIcon::Ts)
    } else if ext == "tsx"@ {
        Some(FileIcon::Tsx)
    } else if ext == "py"@ {
        Some(FileIcon::Py)
    } else if one_of(ext, seq!["css"@, "scss"@, "sass"@, "less"@]) {
        Some(FileIcon::Css)
    } else if one_of(ext, seq!["html"@, "htm"@]) {
        Some(FileIcon::Html)
    } else if ext == "vue"@ {
        Some(FileIcon::Vue)
    } else if ext == "sql"@ {
        Some(FileIcon::Sql)
    } else if one_of(ext, seq!["md"@, "markdown"@]) {
        Some(FileIcon::Markdown)
    } else if one_of(ext, seq!["ini"@, "toml"@, "conf"@, "cfg"@]) {
        Some(FileIcon::Ini)
    } else if one_of(ext, seq!["txt"@, "log"@]) {
        Some(FileIcon::Txt)
    } else if ext == "csv"@ {
        Some(FileIcon::Csv)
    } else if ext == "png"@ {
        Some(FileIcon::Png)
    } else if one_of(ext, seq!["jpg"@, "jpeg"@]) {
        Some(FileIcon::Jpg)
    } else if ext == "svg"@ {
        Some(FileIcon::Svg)
    } else if one_of(ext, seq!["doc"@, "docx"@, "odt"@, "rtf"@]) {
        Some(FileIcon::Doc)
    } else if one_of(ext, seq!["xls"@, "xlsx"@, "ods"@]) {
        Some(FileIcon::Xls)
    } else if one_of(ext, seq!["ppt"@, "pptx"@, "odp"@]) {
        Some(FileIcon::Ppt)
    } else {
        None
    }
}

fn any_of(s: &str, options: &[&'static str]) -> (r: bool)
    ensures
        r == options@.map_values(|o: &'static str| o@).contains(s@),
{
    let ghost os = options@.map_values(|o: &'static str| o@);
    let mut i: usize = 0;
    while i < options.len()
        invariant
            i <= options@.len(),
            os == options@.map_values(|o: &'static str| o@),
            forall|j: int| 0 <= j < i ==> os[j] != s@,
        decreases options@.len() - i,
    {
        if str_eq(s, options[i]) {
            assert(os[i as int] == s@);
            return true;
        }
        i = i + 1;
    }
    false
}

/// The icon that an extension (in lower case) asks for, if it is a known one.
pub fn extension_icon(ext: &str) -> (r: Option<FileIcon>)
    ensures
        r == extension_icon_spec(ext@),
{
    proof {
        assert(seq!["zip", "7z", "rar", "tar", "gz", "xz"].map_values(|o: &'static str| o@)
            =~= seq!["zip"@, "7z"@, "rar"@, "tar"@, "gz"@, "xz"@]);
        assert(seq!["c", "h"].map_values(|o: &'static str| o@) =~= seq!["c"@, "h"@]);
        assert(seq!["cpp", "cc", "cxx", "hpp", "hh"].map_values(|o: &'static str| o@)
            =~= seq!["cpp"@, "cc"@, "cxx"@, "hpp"@, "hh"@]);
        assert(seq!["js", "mjs", "cjs"].map_values(|o: &'static str| o@) =~= seq!["js"@, "mjs"@, "cjs"@]);
        assert(seq!["ts", "mts", "cts"].map_values(|o: &'static str| o@) =~= seq!["ts"@, "mts"@, "cts"@]);
        assert(seq!["css", "scss", "sass", "less"].map_values(|o: &'static str| o@)
            =~= seq!["css"@, "scss"@, "sass"@, "less"@]);
        assert(seq!["html", "htm"].map_values(|o: &'static str| o@) =~= seq!["html"@, "htm"@]);
        assert(seq!["md", "markdown"].map_values(|o: &'static str| o@) =~= seq!["md"@, "markdown"@]);
        assert(seq!["ini", "toml", "conf", "cfg"].map_values(|o: &'static str| o@)
            =~= seq!["ini"@, "toml"@, "conf"@, "cfg"@]);
        assert(seq!["txt", "log"].map_values(|o: &'static str| o@) =~= seq!["txt"@, "log"@]);
        assert(seq!["jpg", "jpeg"].map_values(|o: &'static str| o@) =~= seq!["jpg"@, "jpeg"@]);
        assert(seq!["doc", "docx", "odt", "rtf"].map_values(|o: &'static str| o@)
            =~= seq!["doc"@, "docx"@, "odt"@, "rtf"@]);
        assert(seq!["xls", "xlsx", "ods"].map_values(|o: &'static str| o@) =~= seq!["xls"@, "xlsx"@, "ods"@]);
        assert(seq!["ppt", "pptx", "odp"].map_values(|o: &'static str| o@) =~= seq!["ppt"@, "pptx"@, "odp"@]);
    }
    if str_eq(ext, "pdf") {
        Some(FileIcon::Pdf)
    } else if any_of(ext, &["zip", "7z", "rar", "tar", "gz", "xz"]) {
        Some(FileIcon::Archive)
    } else if str_eq(ext, "rs") {
        Some(FileIcon::Rust)
    } else if any_of(ext, &["c", "h"]) {
        Some(FileIcon::C)
    } else if any_of(ext, &["cpp", "cc", "cxx", "hpp", "hh"]) {
        Some(FileIcon::Cpp)
    } else if str_eq(ext, "cs") {
        Some(FileIcon::CSharp)
    } else if any_of(ext, &["js", "mjs", "cjs"]) {
        Some(FileIcon::Js)
    } else if str_eq(ext, "jsx") {
        Some(FileIcon::Jsx)
    } else if any_of(ext, &["ts", "mts", "cts"]) {
        Some(FileIcon::Ts)
    } else if str_eq(ext, "tsx") {
        Some(FileIcon::Tsx)
    } else if str_eq(ext, "py") {
        Some(FileIcon::Py)
    } else if any_of(ext, &["css", "scss", "sass", "less"]) {
        Some(FileIcon::Css)
    } else if any_of(ext, &["html", "htm"]) {
        Some(FileIcon::Html)
    } else if str_eq(ext, "vue") {
        Some(FileIcon::Vue)
    } else if str_eq(ext, "sql") {
        Some(FileIcon::Sql)
    } else if any_of(ext, &["md", "markdown"]) {
        Some(FileIcon::Markdown)
    } else if any_of(ext, &["ini", "toml", "conf", "cfg"]) {
        Some(FileIcon::Ini)
    } else if any_of(ext, &["txt", "log"]) {
        Some(FileIcon::Txt)
    } else if str_eq(ext, "csv") {
        Some(FileIcon::Csv)
    } else if str_eq(ext, "png") {
        Some(FileIcon::Png)
    } else if any_of(ext, &["jpg", "jpeg"]) {
        Some(FileIcon::Jpg)
    } else if str_eq(ext, "svg") {
        Some(FileIcon::Svg)
    } else if any_of(ext, &["doc", "docx", "odt", "rtf"]) {
        Some(FileIcon::Doc)
    } else if any_of(ext, &["xls", "xlsx", "ods"]) {
        Some(FileIcon::Xls)
    } else if any_of(ext, &["ppt", "pptx", "odp"]) {
        Some(FileIcon::Ppt)
    } else {
        None
    }
}

/// The icon that a MIME type asks for.
pub open spec fn mime_icon_spec(top: Seq<char>, sub: Seq<char>) -> FileIcon {
    if top == "image"@ {
        FileIcon::Image
    } else if top == "video"@ {
        FileIcon::Video
    } else if top == "audio"@ {
        FileIcon::Audio
    } else if top == "text"@ {
        FileIcon::Text
    } else if top == "application"@ && sub == "pdf"@ {
        FileIcon::Pdf
    } else if top == "application"@ && one_of(sub, seq!["zip"@, "gzip"@, "x-tar"@, "x-7z-compressed"@, "x-rar"@]) {
        FileIcon::Archive
    } else {
        FileIcon::File
    }
}

/// The icon that a MIME type asks for.
pub fn mime_icon(top: &str, sub: &str) -> (r: FileIcon)
    ensures
        r == mime_icon_spec(top@, sub@),
{
    proof {
        assert(seq!["zip", "gzip", "x-tar", "x-7z-compressed", "x-rar"].map_values(|o: &'static str| o@)
            =~= seq!["zip"@, "gzip"@, "x-tar"@, "x-7z-compressed"@, "x-rar"@]);
    }
    if str_eq(top, "image") {
        FileIcon::Image
    } else if str_eq(top, "video") {
        FileIcon::Video
    } else if str_eq(top, "audio") {
        FileIcon::Audio
    } else if str_eq(top, "text") {
        FileIcon::Text
    } else if str_eq(top, "application") && str_eq(sub, "pdf") {
        FileIcon::Pdf
    } else if str_eq(top, "application") && any_of(sub, &["zip", "gzip", "x-tar", "x-7z-compressed", "x-rar"]) {
        FileIcon::Archive
    } else {
        FileIcon::File
    }
}

/// The icon of an entry. A folder shows a dashed folder when hidden. A file shows the icon
/// of its extension (compared in ASCII lower case) when known, else that of its MIME type.
pub open spec fn entry_icon_spec(is_dir: bool, hidden: bool, ext: Option<Seq<char>>, mime: (Seq<char>, Seq<char>)) -> FileIcon {
    if is_dir {
        if hidden { FileIcon::FolderDashed } else { FileIcon::Folder }
    } else {
        match ext {
            Some(e) if extension_icon_spec(ascii_lower(e)) is Some => extension_icon_spec(ascii_lower(e)).unwrap(),
            _ => mime_icon_spec(mime.0, mime.1),
        }
    }
}

/// The icon of an entry; the MIME type is asked for only when the extension does not
/// decide.
pub fn entry_icon(is_dir: bool, hidden: bool, ext: Option<&str>, mime: (&str, &str)) -> (r: FileIcon)
    ensures
        r == entry_icon_spec(is_dir, hidden, match ext { Some(e) => Some(e@), None => None }, (mime.0@, mime.1@)),
{
    if is_dir {
        return if hidden { FileIcon::FolderDashed } else { FileIcon::Folder };
    }
    if let Some(e) = ext {
        let c = chars_of(e);
        let l = ascii_lowercase(c.as_slice());
        let s = string_of(l.as_slice());
        if let Some(icon) = extension_icon(s.as_str()) {
            return icon;
        }
    }
    mime_icon(mime.0, mime.1)
}

/// Where a file's extension and its MIME type both name a kind of file, they name the same
/// kind: an extension that is also the subtype of an application MIME type with an icon of
/// its own (pdf, zip) asks for that same icon, so such a file gets that icon whichever of
/// the two decides.
pub proof fn lemma_extension_and_mime_agree(hidden: bool, ext: Seq<char>)
    ensures
        extension_icon_spec(ascii_lower(ext)) is Some && mime_icon_spec("application"@, ascii_lower(ext)) != FileIcon::File
            ==> extension_icon_spec(ascii_lower(ext)) == Some(mime_icon_spec("application"@, ascii_lower(ext))),
        extension_icon_spec(ascii_lower(ext)) is Some && mime_icon_spec("application"@, ascii_lower(ext)) != FileIcon::File
            ==> entry_icon_spec(false, hidden, Some(ext), ("application"@, ascii_lower(ext))) == mime_icon_spec("application"@, ascii_lower(ext)),
{
    reveal_strlit("pdf");
    reveal_strlit("zip");
    reveal_strlit("7z");
    reveal_strlit("rar");
    reveal_strlit("tar");
    reveal_strlit("gz");
    reveal_strlit("xz");
    reveal_strlit("rs");
    reveal_strlit("c");
    reveal_strlit("h");
    reveal_strlit("cpp");
    reveal_strlit("cc");
    reveal_strlit("cxx");
    reveal_strlit("hpp");
    reveal_strlit("hh");
    reveal_strlit("cs");
    reveal_strlit("js");
    reveal_strlit("mjs");
    reveal_strlit("cjs");
    reveal_strlit("jsx");
    reveal_strlit("ts");
    reveal_strlit("mts");
    reveal_strlit("cts");
    reveal_strlit("tsx");
    reveal_strlit("py");
    reveal_strlit("css");
    reveal_strlit("scss");
    reveal_strlit("sass");
    reveal_strlit("less");
    reveal_strlit("html");
    reveal_strlit("htm");
    reveal_strlit("vue");
    reveal_strlit("sql");
    reveal_strlit("md");
    reveal_strlit("markdown");
    reveal_strlit("ini");
    reveal_strlit("toml");
    reveal_strlit("conf");
    reveal_strlit("cfg");
    reveal_strlit("txt");
    reveal_strlit("log");
    reveal_strlit("csv");
    reveal_strlit("png");
    reveal_strlit("jpg");
    reveal_strlit("jpeg");
    reveal_strlit("svg");
    reveal_strlit("doc");
    reveal_strlit("docx");
    reveal_strlit("odt");
    reveal_strlit("rtf");
    reveal_strlit("xls");
    reveal_strlit("xlsx");
    reveal_strlit("ods");
    reveal_strlit("ppt");
    reveal_strlit("pptx");
    reveal_strlit("odp");
    reveal_strlit("application");
    reveal_strlit("image");
    reveal_strlit("video");
    reveal_strlit("audio");
    reveal_strlit("text");
    reveal_strlit("gzip");
    reveal_strlit("x-tar");
    reveal_strlit("x-7z-compressed");
    reveal_strlit("x-rar");
    assert("pdf"@.len() == 3 && "zip"@.len() == 3 && "7z"@.len() == 2 && "rar"@.len() == 3 && "tar"@.len() == 3 && "gz"@.len() == 2);
    assert("xz"@.len() == 2 && "rs"@.len() == 2 && "c"@.len() == 1 && "h"@.len() == 1 && "cpp"@.len() == 3 && "cc"@.len() == 2);
    assert("cxx"@.len() == 3 && "hpp"@.len() == 3 && "hh"@.len() == 2 && "cs"@.len() == 2 && "js"@.len() == 2 && "mjs"@.len() == 3);
    assert("cjs"@.len() == 3 && "jsx"@.len() == 3 && "ts"@.len() == 2 && "mts"@.len() == 3 && "cts"@.len() == 3 && "tsx"@.len() == 3);
    assert("py"@.len() == 2 && "css"@.len() == 3 && "scss"@.len() == 4 && "sass"@.len() == 4 && "less"@.len() == 4 && "html"@.len() == 4);
    assert("htm"@.len() == 3 && "vue"@.len() == 3 && "sql"@.len() == 3 && "md"@.len() == 2 && "markdown"@.len() == 8 && "ini"@.len() == 3);
    assert("toml"@.len() == 4 && "conf"@.len() == 4 && "cfg"@.len() == 3 && "txt"@.len() == 3 && "log"@.len() == 3 && "csv"@.len() == 3);
    assert("png"@.len() == 3 && "jpg"@.len() == 3 && "jpeg"@.len() == 4 && "svg"@.len() == 3 && "doc"@.len() == 3 && "docx"@.len() == 4);
    assert("odt"@.len() == 3 && "rtf"@.len() == 3 && "xls"@.len() == 3 && "xlsx"@.len() == 4 && "ods"@.len() == 3 && "ppt"@.len() == 3);
    assert("pptx"@.len() == 4 && "odp"@.len() == 3);
    let sub = ascii_lower(ext);
    let archives: Seq<Seq<char>> = seq!["zip"@, "gzip"@, "x-tar"@, "x-7z-compressed"@, "x-rar"@];
    if extension_icon_spec(sub) is Some && mime_icon_spec("application"@, sub) != FileIcon::File {
        if sub != "pdf"@ {
            assert("application"@.len() == 11 && "image"@.len() == 5 && "video"@.len() == 5);
            assert("audio"@.len() == 5 && "text"@.len() == 4);
            assert(one_of(sub, archives));
            let i = choose|i: int| 0 <= i < archives.len() && archives[i] == sub;
            if i == 0 {
                assert(sub[0] != "pdf"@[0]);
                assert(archives[0] == sub);
            } else if i == 1 {
                assert(sub[0] == 'g' && sub.len() == 4);
                assert(sub != "scss"@) by { assert(sub[0] != "scss"@[0]); }
                assert(sub != "sass"@) by { assert(sub[0] != "sass"@[0]); }
                assert(sub != "less"@) by { assert(sub[0] != "less"@[0]); }
                assert(sub != "html"@) by { assert(sub[0] != "html"@[0]); }
                assert(sub != "toml"@) by { assert(sub[0] != "toml"@[0]); }
                assert(sub != "conf"@) by { assert(sub[0] != "conf"@[0]); }
                assert(sub != "jpeg"@) by { assert(sub[0] != "jpeg"@[0]); }
                assert(sub != "docx"@) by { assert(sub[0] != "docx"@[0]); }
                assert(sub != "xlsx"@) by { assert(sub[0] != "xlsx"@[0]); }
                assert(sub != "pptx"@) by { assert(sub[0] != "pptx"@[0]); }
                assert(extension_icon_spec(sub) is None);
            } else {
                assert(sub.len() == 5 || sub.len() == 15);
                assert(extension_icon_spec(sub) is None);
            }
        }
    }
}

/// One extension of each kind of file that the extension decides, one kind per icon.
pub open spec fn kind_extensions() -> Seq<Seq<char>> {
    seq!["pdf"@, "zip"@, "rs"@, "c"@, "cpp"@, "cs"@, "js"@, "jsx"@, "ts"@, "tsx"@, "py"@, "css"@, "html"@, "vue"@, "sql"@, "md"@, "ini"@, "txt"@, "csv"@, "png"@, "jpg"@, "svg"@, "doc"@, "xls"@, "ppt"@]
}

/// The number of a kind of file in `kind_extensions`, or -1 for an icon that no extension
/// asks for.
pub open spec fn kind_of_icon(icon: FileIcon) -> int {
    match icon {
        FileIcon::Pdf => 0,
        FileIcon::Archive => 1,
        FileIcon::Rust => 2,
        FileIcon::C => 3,
        FileIcon::Cpp => 4,
        FileIcon::CSharp => 5,
        FileIcon::Js => 6,
        FileIcon::Jsx => 7,
        FileIcon::Ts => 8,
        FileIcon::Tsx => 9,
        FileIcon::Py => 10,
        FileIcon::Css => 11,
        FileIcon::Html => 12,
        FileIcon::Vue => 13,
        FileIcon::Sql => 14,
        FileIcon::Markdown => 15,
        FileIcon::Ini => 16,
        FileIcon::Txt => 17,
        FileIcon::Csv => 18,
        FileIcon::Png => 19,
        FileIcon::Jpg => 20,
        FileIcon::Svg => 21,
        FileIcon::Doc => 22,
        FileIcon::Xls => 23,
        FileIcon::Ppt => 24,
        _ => -1,
    }
}

/// Each kind of file that the extension decides gets an icon of its own: the extension
/// of one kind never asks for the icon of another, nor for one that folders or MIME types
/// alone give.
pub proof fn lemma_each_kind_has_its_own_icon(i: int, j: int)
    requires
        0 <= i < kind_extensions().len(),
        0 <= j < kind_extensions().len(),
    ensures
        extension_icon_spec(kind_extensions()[i]) is Some,
        kind_of_icon(extension_icon_spec(kind_extensions()[i])->0) == i,
        i != j ==> extension_icon_spec(kind_extensions()[i]) != extension_icon_spec(kind_extensions()[j]),
{
    lemma_kind_icon(i);
    lemma_kind_icon(j);
}

#[verifier::rlimit(50)]
proof fn lemma_kind_icon(i: int)
    requires
        0 <= i < kind_extensions().len(),
    ensures
        extension_icon_spec(kind_extensions()[i]) is Some,
        kind_of_icon(extension_icon_spec(kind_extensions()[i])->0) == i,
{
    reveal_strlit("pdf");
    reveal_strlit("zip");
    reveal_strlit("7z");
    reveal_strlit("rar");
    reveal_strlit("tar");
    reveal_strlit("gz");
    reveal_strlit("xz");
    reveal_strlit("rs");
    reveal_strlit("c");
    reveal_strlit("h");
    reveal_strlit("cpp");
    reveal_strlit("cc");
    reveal_strlit("cxx");
    reveal_strlit("hpp");
    reveal_strlit("hh");
    reveal_strlit("cs");
    reveal_strlit("js");
    reveal_strlit("mjs");
    reveal_strlit("cjs");
    reveal_strlit("jsx");
    reveal_strlit("ts");
    reveal_strlit("mts");
    reveal_strlit("cts");
    reveal_strlit("tsx");
    reveal_strlit("py");
    reveal_strlit("css");
    reveal_strlit("scss");
    reveal_strlit("sass");
    reveal_strlit("less");
    reveal_strlit("html");
    reveal_strlit("htm");
    reveal_strlit("vue");
    reveal_strlit("sql");
    reveal_strlit("md");
    reveal_strlit("markdown");
    reveal_strlit("ini");
    reveal_strlit("toml");
    reveal_strlit("conf");
    reveal_strlit("cfg");
    reveal_strlit("txt");
    reveal_strlit("log");
    reveal_strlit("csv");
    reveal_strlit("png");
    reveal_strlit("jpg");
    reveal_strlit("jpeg");
    reveal_strlit("svg");
    reveal_strlit("doc");
    reveal_strlit("docx");
    reveal_strlit("odt");
    reveal_strlit("rtf");
    reveal_strlit("xls");
    reveal_strlit("xlsx");
    reveal_strlit("ods");
    reveal_strlit("ppt");
    reveal_strlit("pptx");
    reveal_strlit("odp");
    assert("pdf"@.len() == 3 && "zip"@.len() == 3 && "7z"@.len() == 2 && "rar"@.len() == 3 && "tar"@.len() == 3 && "gz"@.len() == 2);
    assert("xz"@.len() == 2 && "rs"@.len() == 2 && "c"@.len() == 1 && "h"@.len() == 1 && "cpp"@.len() == 3 && "cc"@.len() == 2);
    assert("cxx"@.len() == 3 && "hpp"@.len() == 3 && "hh"@.len() == 2 && "cs"@.len() == 2 && "js"@.len() == 2 && "mjs"@.len() == 3);
    assert("cjs"@.len() == 3 && "jsx"@.len() == 3 && "ts"@.len() == 2 && "mts"@.len() == 3 && "cts"@.len() == 3 && "tsx"@.len() == 3);
    assert("py"@.len() == 2 && "css"@.len() == 3 && "scss"@.len() == 4 && "sass"@.len() == 4 && "less"@.len() == 4 && "html"@.len() == 4);
    assert("htm"@.len() == 3 && "vue"@.len() == 3 && "sql"@.len() == 3 && "md"@.len() == 2 && "markdown"@.len() == 8 && "ini"@.len() == 3);
    assert("toml"@.len() == 4 && "conf"@.len() == 4 && "cfg"@.len() == 3 && "txt"@.len() == 3 && "log"@.len() == 3 && "csv"@.len() == 3);
    assert("png"@.len() == 3 && "jpg"@.len() == 3 && "jpeg"@.len() == 4 && "svg"@.len() == 3 && "doc"@.len() == 3 && "docx"@.len() == 4);
    assert("odt"@.len() == 3 && "rtf"@.len() == 3 && "xls"@.len() == 3 && "xlsx"@.len() == 4 && "ods"@.len() == 3 && "ppt"@.len() == 3);
    assert("pptx"@.len() == 4 && "odp"@.len() == 3);
    if i == 0 {
        assert(extension_icon_spec("pdf"@) == Some(FileIcon::Pdf));
    } else if i == 1 {
        assert("zip"@[0] != "pdf"@[0]);
        assert(seq!["zip"@, "7z"@, "rar"@, "tar"@, "gz"@, "xz"@][0] == "zip"@);
        assert(extension_icon_spec("zip"@) == Some(FileIcon::Archive));
    } else if i == 2 {
        assert("rs"@[0] != "7z"@[0]);
        assert("rs"@[0] != "gz"@[0]);
        assert("rs"@[0] != "xz"@[0]);
        assert(extension_icon_spec("rs"@) == Some(FileIcon::Rust));
    } else if i == 3 {
        assert(seq!["c"@, "h"@][0] == "c"@);
        assert(extension_icon_spec("c"@) == Some(FileIcon::C));
    } else if i == 4 {
        assert("cpp"@[0] != "pdf"@[0]);
        assert("cpp"@[0] != "zip"@[0]);
        assert("cpp"@[0] != "rar"@[0]);
        assert("cpp"@[0] != "tar"@[0]);
        assert(seq!["cpp"@, "cc"@, "cxx"@, "hpp"@, "hh"@][0] == "cpp"@);
        assert(extension_icon_spec("cpp"@) == Some(FileIcon::Cpp));
    } else if i == 5 {
        assert("cs"@[0] != "7z"@[0]);
        assert("cs"@[0] != "gz"@[0]);
        assert("cs"@[0] != "xz"@[0]);
        assert("cs"@[0] != "rs"@[0]);
        assert("cs"@[1] != "cc"@[1]);
        assert("cs"@[0] != "hh"@[0]);
        assert(extension_icon_spec("cs"@) == Some(FileIcon::CSharp));
    } else if i == 6 {
        assert("js"@[0] != "7z"@[0]);
        assert("js"@[0] != "gz"@[0]);
        assert("js"@[0] != "xz"@[0]);
        assert("js"@[0] != "rs"@[0]);
        assert("js"@[0] != "cc"@[0]);
        assert("js"@[0] != "hh"@[0]);
        assert("js"@[0] != "cs"@[0]);
        assert(seq!["js"@, "mjs"@, "cjs"@][0] == "js"@);
        assert(extension_icon_spec("js"@) == Some(FileIcon::Js));
    } else if i == 7 {
        assert("jsx"@[0] != "pdf"@[0]);
        assert("jsx"@[0] != "zip"@[0]);
        assert("jsx"@[0] != "rar"@[0]);
        assert("jsx"@[0] != "tar"@[0]);
        assert("jsx"@[0] != "cpp"@[0]);
        assert("jsx"@[0] != "cxx"@[0]);
        assert("jsx"@[0] != "hpp"@[0]);
        assert("jsx"@[0] != "mjs"@[0]);
        assert("jsx"@[0] != "cjs"@[0]);
        assert(extension_icon_spec("jsx"@) == Some(FileIcon::Jsx));
    } else if i == 8 {
        assert("ts"@[0] != "7z"@[0]);
        assert("ts"@[0] != "gz"@[0]);
        assert("ts"@[0] != "xz"@[0]);
        assert("ts"@[0] != "rs"@[0]);
        assert("ts"@[0] != "cc"@[0]);
        assert("ts"@[0] != "hh"@[0]);
        assert("ts"@[0] != "cs"@[0]);
        assert("ts"@[0] != "js"@[0]);
        assert(seq!["ts"@, "mts"@, "cts"@][0] == "ts"@);
        assert(extension_icon_spec("ts"@) == Some(FileIcon::Ts));
    } else if i == 9 {
        assert("tsx"@[0] != "pdf"@[0]);
        assert("tsx"@[0] != "zip"@[0]);
        assert("tsx"@[0] != "rar"@[0]);
        assert("tsx"@[1] != "tar"@[1]);
        assert("tsx"@[0] != "cpp"@[0]);
        assert("tsx"@[0] != "cxx"@[0]);
        assert("tsx"@[0] != "hpp"@[0]);
        assert("tsx"@[0] != "mjs"@[0]);
        assert("tsx"@[0] != "cjs"@[0]);
        assert("tsx"@[0] != "jsx"@[0]);
        assert("tsx"@[0] != "mts"@[0]);
        assert("tsx"@[0] != "cts"@[0]);
        assert(extension_icon_spec("tsx"@) == Some(FileIcon::Tsx));
    } else if i == 10 {
        assert("py"@[0] != "7z"@[0]);
        assert("py"@[0] != "gz"@[0]);
        assert("py"@[0] != "xz"@[0]);
        assert("py"@[0] != "rs"@[0]);
        assert("py"@[0] != "cc"@[0]);
        assert("py"@[0] != "hh"@[0]);
        assert("py"@[0] != "cs"@[0]);
        assert("py"@[0] != "js"@[0]);
        assert("py"@[0] != "ts"@[0]);
        assert(extension_icon_spec("py"@) == Some(FileIcon::Py));
    } else if i == 11 {
        assert("css"@[0] != "pdf"@[0]);
        assert("css"@[0] != "zip"@[0]);
        assert("css"@[0] != "rar"@[0]);
        assert("css"@[0] != "tar"@[0]);
        assert("css"@[1] != "cpp"@[1]);
        assert("css"@[1] != "cxx"@[1]);
        assert("css"@[0] != "hpp"@[0]);
        assert("css"@[0] != "mjs"@[0]);
        assert("css"@[1] != "cjs"@[1]);
        assert("css"@[0] != "jsx"@[0]);
        assert("css"@[0] != "mts"@[0]);
        assert("css"@[1] != "cts"@[1]);
        assert("css"@[0] != "tsx"@[0]);
        assert(seq!["css"@, "scss"@, "sass"@, "less"@][0] == "css"@);
        assert(extension_icon_spec("css"@) == Some(FileIcon::Css));
    } else if i == 12 {
        assert("html"@[0] != "scss"@[0]);
        assert("html"@[0] != "sass"@[0]);
        assert("html"@[0] != "less"@[0]);
        assert(seq!["html"@, "htm"@][0] == "html"@);
        assert(extension_icon_spec("html"@) == Some(FileIcon::Html));
    } else if i == 13 {
        assert("vue"@[0] != "pdf"@[0]);
        assert("vue"@[0] != "zip"@[0]);
        assert("vue"@[0] != "rar"@[0]);
        assert("vue"@[0] != "tar"@[0]);
        assert("vue"@[0] != "cpp"@[0]);
        assert("vue"@[0] != "cxx"@[0]);
        assert("vue"@[0] != "hpp"@[0]);
        assert("vue"@[0] != "mjs"@[0]);
        assert("vue"@[0] != "cjs"@[0]);
        assert("vue"@[0] != "jsx"@[0]);
        assert("vue"@[0] != "mts"@[0]);
        assert("vue"@[0] != "cts"@[0]);
        assert("vue"@[0] != "tsx"@[0]);
        assert("vue"@[0] != "css"@[0]);
        assert("vue"@[0] != "htm"@[0]);
        assert(extension_icon_spec("vue"@) == Some(FileIcon::Vue));
    } else if i == 14 {
        assert("sql"@[0] != "pdf"@[0]);
        assert("sql"@[0] != "zip"@[0]);
        assert("sql"@[0] != "rar"@[0]);
        assert("sql"@[0] != "tar"@[0]);
        assert("sql"@[0] != "cpp"@[0]);
        assert("sql"@[0] != "cxx"@[0]);
        assert("sql"@[0] != "hpp"@[0]);
        assert("sql"@[0] != "mjs"@[0]);
        assert("sql"@[0] != "cjs"@[0]);
        assert("sql"@[0] != "jsx"@[0]);
        assert("sql"@[0] != "mts"@[0]);
        assert("sql"@[0] != "cts"@[0]);
        assert("sql"@[0] != "tsx"@[0]);
        assert("sql"@[0] != "css"@[0]);
        assert("sql"@[0] != "htm"@[0]);
        assert("sql"@[0] != "vue"@[0]);
        assert(extension_icon_spec("sql"@) == Some(FileIcon::Sql));
    } else if i == 15 {
        assert("md"@[0] != "7z"@[0]);
        assert("md"@[0] != "gz"@[0]);
        assert("md"@[0] != "xz"@[0]);
        assert("md"@[0] != "rs"@[0]);
        assert("md"@[0] != "cc"@[0]);
        assert("md"@[0] != "hh"@[0]);
        assert("md"@[0] != "cs"@[0]);
        assert("md"@[0] != "js"@[0]);
        assert("md"@[0] != "ts"@[0]);
        assert("md"@[0] != "py"@[0]);
        assert(seq!["md"@, "markdown"@][0] == "md"@);
        assert(extension_icon_spec("md"@) == Some(FileIcon::Markdown));
    } else if i == 16 {
        assert("ini"@[0] != "pdf"@[0]);
        assert("ini"@[0] != "zip"@[0]);
        assert("ini"@[0] != "rar"@[0]);
        assert("ini"@[0] != "tar"@[0]);
        assert("ini"@[0] != "cpp"@[0]);
        assert("ini"@[0] != "cxx"@[0]);
        assert("ini"@[0] != "hpp"@[0]);
        assert("ini"@[0] != "mjs"@[0]);
        assert("ini"@[0] != "cjs"@[0]);
        assert("ini"@[0] != "jsx"@[0]);
        assert("ini"@[0] != "mts"@[0]);
        assert("ini"@[0] != "cts"@[0]);
        assert("ini"@[0] != "tsx"@[0]);
        assert("ini"@[0] != "css"@[0]);
        assert("ini"@[0] != "htm"@[0]);
        assert("ini"@[0] != "vue"@[0]);
        assert("ini"@[0] != "sql"@[0]);
        assert(seq!["ini"@, "toml"@, "conf"@, "cfg"@][0] == "ini"@);
        assert(extension_icon_spec("ini"@) == Some(FileIcon::Ini));
    } else if i == 17 {
        assert("txt"@[0] != "pdf"@[0]);
        assert("txt"@[0] != "zip"@[0]);
        assert("txt"@[0] != "rar"@[0]);
        assert("txt"@[1] != "tar"@[1]);
        assert("txt"@[0] != "cpp"@[0]);
        assert("txt"@[0] != "cxx"@[0]);
        assert("txt"@[0] != "hpp"@[0]);
        assert("txt"@[0] != "mjs"@[0]);
        assert("txt"@[0] != "cjs"@[0]);
        assert("txt"@[0] != "jsx"@[0]);
        assert("txt"@[0] != "mts"@[0]);
        assert("txt"@[0] != "cts"@[0]);
        assert("txt"@[1] != "tsx"@[1]);
        assert("txt"@[0] != "css"@[0]);
        assert("txt"@[0] != "htm"@[0]);
        assert("txt"@[0] != "vue"@[0]);
        assert("txt"@[0] != "sql"@[0]);
        assert("txt"@[0] != "ini"@[0]);
        assert("txt"@[0] != "cfg"@[0]);
        assert(seq!["txt"@, "log"@][0] == "txt"@);
        assert(extension_icon_spec("txt"@) == Some(FileIcon::Txt));
    } else if i == 18 {
        assert("csv"@[0] != "pdf"@[0]);
        assert("csv"@[0] != "zip"@[0]);
        assert("csv"@[0] != "rar"@[0]);
        assert("csv"@[0] != "tar"@[0]);
        assert("csv"@[1] != "cpp"@[1]);
        assert("csv"@[1] != "cxx"@[1]);
        assert("csv"@[0] != "hpp"@[0]);
        assert("csv"@[0] != "mjs"@[0]);
        assert("csv"@[1] != "cjs"@[1]);
        assert("csv"@[0] != "jsx"@[0]);
        assert("csv"@[0] != "mts"@[0]);
        assert("csv"@[1] != "cts"@[1]);
        assert("csv"@[0] != "tsx"@[0]);
        assert("csv"@[2] != "css"@[2]);
        assert("csv"@[0] != "htm"@[0]);
        assert("csv"@[0] != "vue"@[0]);
        assert("csv"@[0] != "sql"@[0]);
        assert("csv"@[0] != "ini"@[0]);
        assert("csv"@[1] != "cfg"@[1]);
        assert("csv"@[0] != "txt"@[0]);
        assert("csv"@[0] != "log"@[0]);
        assert(extension_icon_spec("csv"@) == Some(FileIcon::Csv));
    } else if i == 19 {
        assert("png"@[1] != "pdf"@[1]);
        assert("png"@[0] != "zip"@[0]);
        assert("png"@[0] != "rar"@[0]);
        assert("png"@[0] != "tar"@[0]);
        assert("png"@[0] != "cpp"@[0]);
        assert("png"@[0] != "cxx"@[0]);
        assert("png"@[0] != "hpp"@[0]);
        assert("png"@[0] != "mjs"@[0]);
        assert("png"@[0] != "cjs"@[0]);
        assert("png"@[0] != "jsx"@[0]);
        assert("png"@[0] != "mts"@[0]);
        assert("png"@[0] != "cts"@[0]);
        assert("png"@[0] != "tsx"@[0]);
        assert("png"@[0] != "css"@[0]);
        assert("png"@[0] != "htm"@[0]);
        assert("png"@[0] != "vue"@[0]);
        assert("png"@[0] != "sql"@[0]);
        assert("png"@[0] != "ini"@[0]);
        assert("png"@[0] != "cfg"@[0]);
        assert("png"@[0] != "txt"@[0]);
        assert("png"@[0] != "log"@[0]);
        assert("png"@[0] != "csv"@[0]);
        assert(extension_icon_spec("png"@) == Some(FileIcon::Png));
    } else if i == 20 {
        assert("jpg"@[0] != "pdf"@[0]);
        assert("jpg"@[0] != "zip"@[0]);
        assert("jpg"@[0] != "rar"@[0]);
        assert("jpg"@[0] != "tar"@[0]);
        assert("jpg"@[0] != "cpp"@[0]);
        assert("jpg"@[0] != "cxx"@[0]);
        assert("jpg"@[0] != "hpp"@[0]);
        assert("jpg"@[0] != "mjs"@[0]);
        assert("jpg"@[0] != "cjs"@[0]);
        assert("jpg"@[1] != "jsx"@[1]);
        assert("jpg"@[0] != "mts"@[0]);
        assert("jpg"@[0] != "cts"@[0]);
        assert("jpg"@[0] != "tsx"@[0]);
        assert("jpg"@[0] != "css"@[0]);
        assert("jpg"@[0] != "htm"@[0]);
        assert("jpg"@[0] != "vue"@[0]);
        assert("jpg"@[0] != "sql"@[0]);
        assert("jpg"@[0] != "ini"@[0]);
        assert("jpg"@[0] != "cfg"@[0]);
        assert("jpg"@[0] != "txt"@[0]);
        assert("jpg"@[0] != "log"@[0]);
        assert("jpg"@[0] != "csv"@[0]);
        assert("jpg"@[0] != "png"@[0]);
        assert(seq!["jpg"@, "jpeg"@][0] == "jpg"@);
        assert(extension_icon_spec("jpg"@) == Some(FileIcon::Jpg));
    } else if i == 21 {
        assert("svg"@[0] != "pdf"@[0]);
        assert("svg"@[0] != "zip"@[0]);
        assert("svg"@[0] != "rar"@[0]);
        assert("svg"@[0] != "tar"@[0]);
        assert("svg"@[0] != "cpp"@[0]);
        assert("svg"@[0] != "cxx"@[0]);
        assert("svg"@[0] != "hpp"@[0]);
        assert("svg"@[0] != "mjs"@[0]);
        assert("svg"@[0] != "cjs"@[0]);
        assert("svg"@[0] != "jsx"@[0]);
        assert("svg"@[0] != "mts"@[0]);
        assert("svg"@[0] != "cts"@[0]);
        assert("svg"@[0] != "tsx"@[0]);
        assert("svg"@[0] != "css"@[0]);
        assert("svg"@[0] != "htm"@[0]);
        assert("svg"@[0] != "vue"@[0]);
        assert("svg"@[1] != "sql"@[1]);
        assert("svg"@[0] != "ini"@[0]);
        assert("svg"@[0] != "cfg"@[0]);
        assert("svg"@[0] != "txt"@[0]);
        assert("svg"@[0] != "log"@[0]);
        assert("svg"@[0] != "csv"@[0]);
        assert("svg"@[0] != "png"@[0]);
        assert("svg"@[0] != "jpg"@[0]);
        assert(extension_icon_spec("svg"@) == Some(FileIcon::Svg));
    } else if i == 22 {
        assert("doc"@[0] != "pdf"@[0]);
        assert("doc"@[0] != "zip"@[0]);
        assert("doc"@[0] != "rar"@[0]);
        assert("doc"@[0] != "tar"@[0]);
        assert("doc"@[0] != "cpp"@[0]);
        assert("doc"@[0] != "cxx"@[0]);
        assert("doc"@[0] != "hpp"@[0]);
        assert("doc"@[0] != "mjs"@[0]);
        assert("doc"@[0] != "cjs"@[0]);
        assert("doc"@[0] != "jsx"@[0]);
        assert("doc"@[0] != "mts"@[0]);
        assert("doc"@[0] != "cts"@[0]);
        assert("doc"@[0] != "tsx"@[0]);
        assert("doc"@[0] != "css"@[0]);
        assert("doc"@[0] != "htm"@[0]);
        assert("doc"@[0] != "vue"@[0]);
        assert("doc"@[0] != "sql"@[0]);
        assert("doc"@[0] != "ini"@[0]);
        assert("doc"@[0] != "cfg"@[0]);
        assert("doc"@[0] != "txt"@[0]);
        assert("doc"@[0] != "log"@[0]);
        assert("doc"@[0] != "csv"@[0]);
        assert("doc"@[0] != "png"@[0]);
        assert("doc"@[0] != "jpg"@[0]);
        assert("doc"@[0] != "svg"@[0]);
        assert(seq!["doc"@, "docx"@, "odt"@, "rtf"@][0] == "doc"@);
        assert(extension_icon_spec("doc"@) == Some(FileIcon::Doc));
    } else if i == 23 {
        assert("xls"@[0] != "pdf"@[0]);
        assert("xls"@[0] != "zip"@[0]);
        assert("xls"@[0] != "rar"@[0]);
        assert("xls"@[0] != "tar"@[0]);
        assert("xls"@[0] != "cpp"@[0]);
        assert("xls"@[0] != "cxx"@[0]);
        assert("xls"@[0] != "hpp"@[0]);
        assert("xls"@[0] != "mjs"@[0]);
        assert("xls"@[0] != "cjs"@[0]);
        assert("xls"@[0] != "jsx"@[0]);
        assert("xls"@[0] != "mts"@[0]);
        assert("xls"@[0] != "cts"@[0]);
        assert("xls"@[0] != "tsx"@[0]);
        assert("xls"@[0] != "css"@[0]);
        assert("xls"@[0] != "htm"@[0]);
        assert("xls"@[0] != "vue"@[0]);
        assert("xls"@[0] != "sql"@[0]);
        assert("xls"@[0] != "ini"@[0]);
        assert("xls"@[0] != "cfg"@[0]);
        assert("xls"@[0] != "txt"@[0]);
        assert("xls"@[0] != "log"@[0]);
        assert("xls"@[0] != "csv"@[0]);
        assert("xls"@[0] != "png"@[0]);
        assert("xls"@[0] != "jpg"@[0]);
        assert("xls"@[0] != "svg"@[0]);
        assert("xls"@[0] != "doc"@[0]);
        assert("xls"@[0] != "odt"@[0]);
        assert("xls"@[0] != "rtf"@[0]);
        assert(seq!["xls"@, "xlsx"@, "ods"@][0] == "xls"@);
        assert(extension_icon_spec("xls"@) == Some(FileIcon::Xls));
    } else if i == 24 {
        assert("ppt"@[1] != "pdf"@[1]);
        assert("ppt"@[0] != "zip"@[0]);
        assert("ppt"@[0] != "rar"@[0]);
        assert("ppt"@[0] != "tar"@[0]);
        assert("ppt"@[0] != "cpp"@[0]);
        assert("ppt"@[0] != "cxx"@[0]);
        assert("ppt"@[0] != "hpp"@[0]);
        assert("ppt"@[0] != "mjs"@[0]);
        assert("ppt"@[0] != "cjs"@[0]);
        assert("ppt"@[0] != "jsx"@[0]);
        assert("ppt"@[0] != "mts"@[0]);
        assert("ppt"@[0] != "cts"@[0]);
        assert("ppt"@[0] != "tsx"@[0]);
        assert("ppt"@[0] != "css"@[0]);
        assert("ppt"@[0] != "htm"@[0]);
        assert("ppt"@[0] != "vue"@[0]);
        assert("ppt"@[0] != "sql"@[0]);
        assert("ppt"@[0] != "ini"@[0]);
        assert("ppt"@[0] != "cfg"@[0]);
        assert("ppt"@[0] != "txt"@[0]);
        assert("ppt"@[0] != "log"@[0]);
        assert("ppt"@[0] != "csv"@[0]);
        assert("ppt"@[1] != "png"@[1]);
        assert("ppt"@[0] != "jpg"@[0]);
        assert("ppt"@[0] != "svg"@[0]);
        assert("ppt"@[0] != "doc"@[0]);
        assert("ppt"@[0] != "odt"@[0]);
        assert("ppt"@[0] != "rtf"@[0]);
        assert("ppt"@[0] != "xls"@[0]);
        assert("ppt"@[0] != "ods"@[0]);
        assert(seq!["ppt"@, "pptx"@, "odp"@][0] == "ppt"@);
        assert(extension_icon_spec("ppt"@) == Some(FileIcon::Ppt));
    }
}

/// How two directory entries are ordered.
#[derive(Debug, Clone, Copy, PartialEq, Eq, Structural)]
pub enum EntryOrder {
    Less,
    Equal,
    Greater,
}

/// Byte-wise lexicographic order of two names.
pub open spec fn bytes_order(a: Seq<u8>, b: Seq<u8>) -> EntryOrder
    decreases a.len(),
{
    if a.len() == 0 && b.len() == 0 {
        EntryOrder::Equal
    } else if a.len() == 0 {
        EntryOrder::Less
    } else if b.len() == 0 {
        EntryOrder::Greater
    } else if a[0] < b[0] {
        EntryOrder::Less
    } else if a[0] > b[0] {
        EntryOrder::Greater
    } else {
        bytes_order(a.skip(1), b.skip(1))
    }
}

/// The order of the file manager's entries: folders before files, then by name, bytewise;
/// entries without a name compare equal.
pub open spec fn entry_order_spec(a_dir: bool, a_name: Option<Seq<u8>>, b_dir: bool, b_name: Option<Seq<u8>>) -> EntryOrder {
    if a_dir && !b_dir {
        EntryOrder::Less
    } else if !a_dir && b_dir {
        EntryOrder::Greater
    } else {
        match (a_name, b_name) {
            (Some(x), Some(y)) => bytes_order(x, y),
            _ => EntryOrder::Equal,
        }
    }
}

/// The opposite of an order.
pub open spec fn reversed(o: EntryOrder) -> EntryOrder {
    match o {
        EntryOrder::Less => EntryOrder::Greater,
        EntryOrder::Equal => EntryOrder::Equal,
        EntryOrder::Greater => EntryOrder::Less,
    }
}

proof fn lemma_bytes_order_reversed(a: Seq<u8>, b: Seq<u8>)
    ensures
        bytes_order(b, a) == reversed(bytes_order(a, b)),
        bytes_order(a, b) == EntryOrder::Equal <==> a == b,
    decreases a.len(),
{
    if a.len() > 0 && b.len() > 0 {
        lemma_bytes_order_reversed(a.skip(1), b.skip(1));
        if a[0] == b[0] && a.skip(1) == b.skip(1) {
            assert(a =~= seq![a[0]] + a.skip(1));
            assert(b =~= seq![b[0]] + b.skip(1));
        }
    } else if a.len() == 0 && b.len() != 0 {
        assert(a != b);
    } else if b.len() == 0 && a.len() != 0 {
        assert(a != b);
    } else {
        assert(a =~= b);
    }
}

/// Comparing two entries the other way round gives the opposite order: the sort sees a
/// consistent order.
pub proof fn lemma_entry_order_reversed(a_dir: bool, a_name: Option<Seq<u8>>, b_dir: bool, b_name: Option<Seq<u8>>)
    ensures
        entry_order_spec(b_dir, b_name, a_dir, a_name) == reversed(entry_order_spec(a_dir, a_name, b_dir, b_name)),
{
    if let (Some(x), Some(y)) = (a_name, b_name) {
        lemma_bytes_order_reversed(x, y);
    }
}

/// Two named entries of the same kind are equal in the order exactly when their names
/// are equal.
pub proof fn lemma_entry_order_equal(dir: bool, a: Seq<u8>, b: Seq<u8>)
    ensures
        entry_order_spec(dir, Some(a), dir, Some(b)) == EntryOrder::Equal <==> a == b,
{
    lemma_bytes_order_reversed(a, b);
}

fn compare_bytes(a: &[u8], b: &[u8]) -> (r: EntryOrder)
    ensures
        r == bytes_order(a@, b@),
{
    let mut i: usize = 0;
    assert(a@.skip(0) =~= a@ && b@.skip(0) =~= b@);
    while i < a.len() && i < b.len()
        invariant
            i <= a@.len(),
            i <= b@.len(),
            bytes_order(a@, b@) == bytes_order(a@.skip(i as int), b@.skip(i as int)),
        decreases a@.len() - i,
    {
        assert(a@.skip(i as int)[0] == a@[i as int]);
        assert(b@.skip(i as int)[0] == b@[i as int]);
        if a[i] < b[i] {
            return EntryOrder::Less;
        }
        if a[i] > b[i] {
            return EntryOrder::Greater;
        }
        assert(a@.skip(i as int).skip(1) =~= a@.skip(i + 1));
        assert(b@.skip(i as int).skip(1) =~= b@.skip(i + 1));
        i = i + 1;
    }
    if i == a.len() && i == b.len() {
        EntryOrder::Equal
    } else if i == a.len() {
        EntryOrder::Less
    } else {
        EntryOrder::Greater
    }
}

/// The order of two entries of the file manager.
pub fn sort_by_file_path(a_dir: bool, a_name: Option<&[u8]>, b_dir: bool, b_name: Option<&[u8]>) -> (r: EntryOrder)
    ensures
        r == entry_order_spec(
            a_dir,
            match a_name { Some(x) => Some(x@), None => None },
            b_dir,
            match b_name { Some(x) => Some(x@), None => None },
        ),
{
    if a_dir && !b_dir {
        EntryOrder::Less
    } else if !a_dir && b_dir {
        EntryOrder::Greater
    } else {
        match (a_name, b_name) {
            (Some(x), Some(y)) => compare_bytes(x, y),
            _ => EntryOrder::Equal,
        }
    }
}

} // verus!
