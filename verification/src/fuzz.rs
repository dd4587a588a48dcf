//! A typed model of a Container Index that renders to well-formed XML.
//!
//! Raw byte mutation almost never produces a valid manifest. Generating from a
//! typed model guarantees every input is a well-formed CIX document, and,
//! because the model is the ground truth, a reader of the rendered document
//! can be checked to read back exactly what was written.
use vstd::prelude::*;

use crate::text::{decimal, has_prefix, push_char, push_decimal};

verus! {

broadcast use vstd::string::group_string_axioms;

/// XML-attribute-safe text: printable ASCII without the characters that
/// attribute-value normalization would change.
#[derive(Debug, Clone, PartialEq, Eq)]
pub struct Text(pub String);

/// A source `type`.
#[derive(Debug, Clone, PartialEq, Eq)]
pub struct Kind(pub String);

#[derive(Debug)]
pub struct HashNode {
    pub alg: Text,
    pub value: Text,
}

#[derive(Debug)]
pub struct SourceNode {
    pub kind: Kind,
    pub offset: u64,
    pub length: u64,
    pub hash: Option<HashNode>,
}

#[derive(Debug)]
pub struct DeltaNode {
    pub source: SourceNode,
}

#[derive(Debug)]
pub struct FileNode {
    pub id: u32,
    pub name: Text,
    pub length: u64,
    pub time: Text,
    pub attr: Text,
    pub hash: Option<HashNode>,
    pub delta: Option<DeltaNode>,
}

#[derive(Debug)]
pub struct LocationNode {
    pub id: u32,
    pub path: Text,
    pub flags: Text,
}

/// A Container Index model that renders to a well-formed manifest.
#[derive(Debug)]
pub struct CixDoc {
    pub name: Text,
    pub kind: Text,
    pub length: u64,
    pub version: Text,
    pub locations: Vec<LocationNode>,
    pub files: Vec<FileNode>,
}

/// The XML attribute text for one character: the five predefined entities
/// for `&`, `<`, `>`, `"` and `'`, any other character as itself.
pub open spec fn escape_char(c: char) -> Seq<char> {
    if c == '&' {
        "&amp;"@
    } else if c == '<' {
        "&lt;"@
    } else if c == '>' {
        "&gt;"@
    } else if c == '"' {
        "&quot;"@
    } else if c == '\'' {
        "&apos;"@
    } else {
        seq![c]
    }
}

/// The XML attribute text for `s`, character by character.
pub open spec fn escaped(s: Seq<char>) -> Seq<char>
    decreases s.len(),
{
    if s.len() == 0 {
        seq![]
    } else {
        escaped(s.drop_last()) + escape_char(s.last())
    }
}

pub open spec fn hash_xml(h: HashNode) -> Seq<char> {
    "<Hash alg=\""@ + escaped(h.alg.0@) + "\" value=\""@ + escaped(h.value.0@) + "\" />"@
}

pub open spec fn opt_hash_xml(h: Option<HashNode>) -> Seq<char> {
    match h {
        Some(h) => hash_xml(h),
        None => seq![],
    }
}

pub open spec fn location_xml(l: LocationNode) -> Seq<char> {
    "<Location id=\""@ + decimal(l.id as nat) + "\" path=\""@ + escaped(l.path.0@)
        + "\" flags=\""@ + escaped(l.flags.0@) + "\" />"@
}

pub open spec fn delta_xml(d: Option<DeltaNode>) -> Seq<char> {
    match d {
        Some(d) => "<Delta><Source type=\""@ + escaped(d.source.kind.0@) + "\" offset=\""@
            + decimal(d.source.offset as nat) + "\" length=\""@ + decimal(d.source.length as nat)
            + "\">"@ + opt_hash_xml(d.source.hash) + "</Source></Delta>"@,
        None => seq![],
    }
}

pub open spec fn file_xml(f: FileNode) -> Seq<char> {
    "<File id=\""@ + decimal(f.id as nat) + "\" name=\""@ + escaped(f.name.0@) + "\" length=\""@
        + decimal(f.length as nat) + "\" time=\""@ + escaped(f.time.0@) + "\" attr=\""@ + escaped(
        f.attr.0@,
    ) + "\">"@ + opt_hash_xml(f.hash) + delta_xml(f.delta) + "</File>"@
}

pub open spec fn locations_xml(ls: Seq<LocationNode>) -> Seq<char>
    decreases ls.len(),
{
    if ls.len() == 0 {
        seq![]
    } else {
        locations_xml(ls.drop_last()) + location_xml(ls.last())
    }
}

pub open spec fn files_xml(fs: Seq<FileNode>) -> Seq<char>
    decreases fs.len(),
{
    if fs.len() == 0 {
        seq![]
    } else {
        files_xml(fs.drop_last()) + file_xml(fs.last())
    }
}

pub open spec fn container_open_xml(doc: CixDoc) -> Seq<char> {
    "<?xml version=\"1.0\" encoding=\"utf-8\"?>"@ + "<Container name=\""@ + escaped(doc.name.0@)
        + "\" type=\""@ + escaped(doc.kind.0@) + "\" length=\""@ + decimal(doc.length as nat)
        + "\" version=\""@ + escaped(doc.version.0@) + "\" xmlns=\"urn:ContainerIndex\">"@
}

pub open spec fn basis_search_xml(ls: Seq<LocationNode>) -> Seq<char> {
    if ls.len() == 0 {
        seq![]
    } else {
        "<DeltaBasisSearch>"@ + locations_xml(ls) + "</DeltaBasisSearch>"@
    }
}

/// The manifest that `doc` renders to.
pub open spec fn rendered(doc: CixDoc) -> Seq<char> {
    container_open_xml(doc) + basis_search_xml(doc.locations@) + "<Files>"@ + files_xml(doc.files@)
        + "</Files></Container>"@
}

/// Rendering a list of locations is rendering each in turn: the text for
/// `a + b` is the text for `a` followed by the text for `b`.
pub proof fn lemma_locations_xml_concat(a: Seq<LocationNode>, b: Seq<LocationNode>)
    ensures
        locations_xml(a + b) == locations_xml(a) + locations_xml(b),
    decreases b.len(),
{
    if b.len() == 0 {
        assert(a + b =~= a);
        assert(locations_xml(a) + locations_xml(b) =~= locations_xml(a));
    } else {
        assert((a + b).drop_last() =~= a + b.drop_last());
        assert((a + b).last() == b.last());
        lemma_locations_xml_concat(a, b.drop_last());
        assert(locations_xml(a + b) =~= locations_xml(a) + locations_xml(b));
    }
}

/// Rendering a list of files is rendering each in turn: the text for `a + b`
/// is the text for `a` followed by the text for `b`.
pub proof fn lemma_files_xml_concat(a: Seq<FileNode>, b: Seq<FileNode>)
    ensures
        files_xml(a + b) == files_xml(a) + files_xml(b),
    decreases b.len(),
{
    if b.len() == 0 {
        assert(a + b =~= a);
        assert(files_xml(a) + files_xml(b) =~= files_xml(a));
    } else {
        assert((a + b).drop_last() =~= a + b.drop_last());
        assert((a + b).last() == b.last());
        lemma_files_xml_concat(a, b.drop_last());
        assert(files_xml(a + b) =~= files_xml(a) + files_xml(b));
    }
}

/// The rendered locations hold one `<Location>` element per location, in
/// order: the `k`-th location's element stands between the text for the
/// locations before it and the text for those after it. No list renders to
/// nothing but the empty list.
pub proof fn lemma_locations_xml_each(ls: Seq<LocationNode>)
    ensures
        ls.len() == 0 ==> locations_xml(ls) == Seq::<char>::empty(),
        forall|k: int|
            0 <= k < ls.len() ==> locations_xml(ls) == locations_xml(ls.take(k)) + location_xml(
                #[trigger] ls[k],
            ) + locations_xml(ls.skip(k + 1)),
{
    assert forall|k: int| 0 <= k < ls.len() implies locations_xml(ls) == locations_xml(ls.take(k))
        + location_xml(#[trigger] ls[k]) + locations_xml(ls.skip(k + 1)) by {
        let one = seq![ls[k]];
        assert(ls =~= ls.take(k) + one + ls.skip(k + 1));
        lemma_locations_xml_concat(ls.take(k) + one, ls.skip(k + 1));
        lemma_locations_xml_concat(ls.take(k), one);
        assert(one.drop_last() =~= Seq::<LocationNode>::empty());
        assert(one.last() == ls[k]);
        assert(locations_xml(Seq::<LocationNode>::empty()) =~= Seq::<char>::empty());
        assert(locations_xml(one) =~= location_xml(ls[k]));
    }
}

/// The rendered files hold one `<File>` element per file, in order, whatever
/// its hash and source: the `k`-th file's element stands between the text for
/// the files before it and the text for those after it.
pub proof fn lemma_files_xml_each(fs: Seq<FileNode>)
    ensures
        fs.len() == 0 ==> files_xml(fs) == Seq::<char>::empty(),
        forall|k: int|
            0 <= k < fs.len() ==> files_xml(fs) == files_xml(fs.take(k)) + file_xml(#[trigger] fs[k])
                + files_xml(fs.skip(k + 1)),
{
    assert forall|k: int| 0 <= k < fs.len() implies files_xml(fs) == files_xml(fs.take(k))
        + file_xml(#[trigger] fs[k]) + files_xml(fs.skip(k + 1)) by {
        let one = seq![fs[k]];
        assert(fs =~= fs.take(k) + one + fs.skip(k + 1));
        lemma_files_xml_concat(fs.take(k) + one, fs.skip(k + 1));
        lemma_files_xml_concat(fs.take(k), one);
        assert(one.drop_last() =~= Seq::<FileNode>::empty());
        assert(one.last() == fs[k]);
        assert(files_xml(Seq::<FileNode>::empty()) =~= Seq::<char>::empty());
        assert(files_xml(one) =~= file_xml(fs[k]));
    }
}

/// The layout of a rendered manifest: the XML declaration and `<Container>`
/// start tag; a `<DeltaBasisSearch>` element holding every location, only when
/// there are locations; a `<Files>` element holding every file; the end tags.
pub proof fn lemma_rendered_layout(doc: CixDoc)
    ensures
        rendered(doc) == container_open_xml(doc) + (if doc.locations@.len() == 0 {
            Seq::<char>::empty()
        } else {
            "<DeltaBasisSearch>"@ + locations_xml(doc.locations@) + "</DeltaBasisSearch>"@
        }) + "<Files>"@ + files_xml(doc.files@) + "</Files></Container>"@,
        container_open_xml(doc) == "<?xml version=\"1.0\" encoding=\"utf-8\"?>"@
            + "<Container name=\""@ + escaped(doc.name.0@) + "\" type=\""@ + escaped(doc.kind.0@)
            + "\" length=\""@ + decimal(doc.length as nat) + "\" version=\""@ + escaped(
            doc.version.0@,
        ) + "\" xmlns=\"urn:ContainerIndex\">"@,
{
}

/// A character that would end or break an XML attribute value.
pub open spec fn is_markup_char(c: char) -> bool {
    c == '<' || c == '>' || c == '"' || c == '\''
}

/// Escaped text is safe inside a quoted XML attribute: it holds none of
/// `<`, `>`, `"` or `'`.
pub proof fn lemma_escaped_has_no_markup(s: Seq<char>)
    ensures
        forall|i: int| 0 <= i < escaped(s).len() ==> !is_markup_char(#[trigger] escaped(s)[i]),
    decreases s.len(),
{
    reveal_strlit("&amp;");
    reveal_strlit("&lt;");
    reveal_strlit("&gt;");
    reveal_strlit("&quot;");
    reveal_strlit("&apos;");
    if s.len() > 0 {
        lemma_escaped_has_no_markup(s.drop_last());
        let p = escaped(s.drop_last());
        let e = escape_char(s.last());
        assert forall|i: int| 0 <= i < escaped(s).len() implies !is_markup_char(
            #[trigger] escaped(s)[i],
        ) by {
            if i >= p.len() {
                assert(escaped(s)[i] == e[i - p.len()]);
            } else {
                assert(escaped(s)[i] == p[i]);
            }
        }
    }
}

/// The five predefined XML entities, as characters.
pub open spec fn amp_entity() -> Seq<char> {
    seq!['&', 'a', 'm', 'p', ';']
}

pub open spec fn lt_entity() -> Seq<char> {
    seq!['&', 'l', 't', ';']
}

pub open spec fn gt_entity() -> Seq<char> {
    seq!['&', 'g', 't', ';']
}

pub open spec fn quot_entity() -> Seq<char> {
    seq!['&', 'q', 'u', 'o', 't', ';']
}

pub open spec fn apos_entity() -> Seq<char> {
    seq!['&', 'a', 'p', 'o', 's', ';']
}

/// XML's decoding of the five predefined entities in attribute text: each
/// entity `&amp;`, `&lt;`, `&gt;`, `&quot;`, `&apos;` stands for its
/// character, and any other character for itself.
pub open spec fn unescaped(t: Seq<char>) -> Seq<char>
    decreases t.len(),
{
    if t.len() == 0 {
        seq![]
    } else if has_prefix(t, amp_entity()) {
        seq!['&'] + unescaped(t.skip(5))
    } else if has_prefix(t, lt_entity()) {
        seq!['<'] + unescaped(t.skip(4))
    } else if has_prefix(t, gt_entity()) {
        seq!['>'] + unescaped(t.skip(4))
    } else if has_prefix(t, quot_entity()) {
        seq!['"'] + unescaped(t.skip(6))
    } else if has_prefix(t, apos_entity()) {
        seq!['\''] + unescaped(t.skip(6))
    } else {
        seq![t[0]] + unescaped(t.skip(1))
    }
}

/// Escaping works character by character: the escaped text of `a + b` is the
/// escaped text of `a` followed by that of `b`.
pub proof fn lemma_escaped_concat(a: Seq<char>, b: Seq<char>)
    ensures
        escaped(a + b) == escaped(a) + escaped(b),
    decreases b.len(),
{
    if b.len() == 0 {
        assert(a + b =~= a);
        assert(escaped(a) + escaped(b) =~= escaped(a));
    } else {
        assert((a + b).drop_last() =~= a + b.drop_last());
        assert((a + b).last() == b.last());
        lemma_escaped_concat(a, b.drop_last());
        assert(escaped(a + b) =~= escaped(a) + escaped(b));
    }
}

/// Decoding the escaped text of one character, followed by any text, gives
/// the character back, followed by the decoding of that text.
proof fn lemma_unescape_step(c: char, tail: Seq<char>)
    ensures
        unescaped(escape_char(c) + tail) == seq![c] + unescaped(tail),
{
    reveal_strlit("&amp;");
    reveal_strlit("&lt;");
    reveal_strlit("&gt;");
    reveal_strlit("&quot;");
    reveal_strlit("&apos;");
    assert("&amp;"@ =~= amp_entity());
    assert("&lt;"@ =~= lt_entity());
    assert("&gt;"@ =~= gt_entity());
    assert("&quot;"@ =~= quot_entity());
    assert("&apos;"@ =~= apos_entity());
    let e = escape_char(c);
    let t = e + tail;
    assert(t.skip(e.len() as int) =~= tail);
    assert(t.take(e.len() as int) =~= e);
    assert(t[0] == e[0]);
    if c == '&' {
        assert(has_prefix(t, amp_entity()));
    }
    if c == '\x3c' {
        assert(t.len() >= 5 ==> t.take(5)[1] == 'l');
        assert(!has_prefix(t, amp_entity()));
        assert(has_prefix(t, lt_entity()));
    }
    if c == '\x3e' {
        assert(t.len() >= 5 ==> t.take(5)[1] == 'g');
        assert(t.take(4)[1] == 'g');
        assert(!has_prefix(t, amp_entity()));
        assert(!has_prefix(t, lt_entity()));
        assert(has_prefix(t, gt_entity()));
    }
    if c == '"' {
        assert(t.take(5)[1] == 'q');
        assert(t.take(4)[1] == 'q');
        assert(!has_prefix(t, amp_entity()));
        assert(!has_prefix(t, lt_entity()));
        assert(!has_prefix(t, gt_entity()));
        assert(has_prefix(t, quot_entity()));
    }
    if c == '\'' {
        assert(t.take(5)[2] == 'p');
        assert(t.take(4)[1] == 'a');
        assert(t.take(6)[1] == 'a');
        assert(!has_prefix(t, amp_entity()));
        assert(!has_prefix(t, lt_entity()));
        assert(!has_prefix(t, gt_entity()));
        assert(!has_prefix(t, quot_entity()));
        assert(has_prefix(t, apos_entity()));
    }
    if c != '&' && !is_markup_char(c) {
        assert(e =~= seq![c]);
        assert(t.len() >= 4 ==> t.take(4)[0] == c);
        assert(t.len() >= 5 ==> t.take(5)[0] == c);
        assert(t.len() >= 6 ==> t.take(6)[0] == c);
        assert(!has_prefix(t, amp_entity()));
        assert(!has_prefix(t, lt_entity()));
        assert(!has_prefix(t, gt_entity()));
        assert(!has_prefix(t, quot_entity()));
        assert(!has_prefix(t, apos_entity()));
    }
    assert(unescaped(t) =~= seq![c] + unescaped(tail));
}

/// Decoding the entities of escaped text gives the text back: the rendered
/// attribute values read back as exactly the strings of the model.
pub proof fn lemma_unescaped_escaped(s: Seq<char>)
    ensures
        unescaped(escaped(s)) == s,
    decreases s.len(),
{
    if s.len() == 0 {
        assert(escaped(s) =~= Seq::<char>::empty());
    } else {
        let c = s[0];
        let rest = s.skip(1);
        assert(s =~= seq![c] + rest);
        lemma_escaped_concat(seq![c], rest);
        assert(seq![c].drop_last() =~= Seq::<char>::empty());
        assert(seq![c].last() == c);
        assert(escaped(Seq::<char>::empty()) =~= Seq::<char>::empty());
        assert(escaped(seq![c]) =~= escape_char(c));
        lemma_unescaped_escaped(rest);
        lemma_unescape_step(c, escaped(rest));
        assert(unescaped(escaped(s)) =~= s);
    }
}

/// One of the five predefined entities begins at position `i` of `t`.
pub open spec fn entity_at(t: Seq<char>, i: int) -> bool {
    let u = t.skip(i);
    ||| has_prefix(u, amp_entity())
    ||| has_prefix(u, lt_entity())
    ||| has_prefix(u, gt_entity())
    ||| has_prefix(u, quot_entity())
    ||| has_prefix(u, apos_entity())
}

/// A prefix of `a` is a prefix of `a` followed by anything.
proof fn lemma_prefix_of_concat(a: Seq<char>, b: Seq<char>, pat: Seq<char>)
    requires
        has_prefix(a, pat),
    ensures
        has_prefix(a + b, pat),
{
    assert((a + b).take(pat.len() as int) =~= a.take(pat.len() as int));
}

/// The escaped text of one character is an entity, or that character when it
/// is not `&`: in either case a `&` in it can only stand first, where an
/// entity begins.
proof fn lemma_escape_char_ampersand(c: char, k: int)
    requires
        0 <= k < escape_char(c).len(),
        escape_char(c)[k] == '&',
    ensures
        k == 0,
        entity_at(escape_char(c), 0),
{
    reveal_strlit("&amp;");
    reveal_strlit("&lt;");
    reveal_strlit("&gt;");
    reveal_strlit("&quot;");
    reveal_strlit("&apos;");
    let e = escape_char(c);
    assert(e.skip(0) =~= e);
    assert(e.take(e.len() as int) =~= e);
    assert("&amp;"@ =~= amp_entity());
    assert("&lt;"@ =~= lt_entity());
    assert("&gt;"@ =~= gt_entity());
    assert("&quot;"@ =~= quot_entity());
    assert("&apos;"@ =~= apos_entity());
}

/// Every `&` in escaped text begins one of the five predefined entities: a
/// character is never escaped twice and no stray `&` is left.
pub proof fn lemma_escaped_ampersands_begin_entities(s: Seq<char>)
    ensures
        forall|i: int|
            0 <= i < escaped(s).len() && #[trigger] escaped(s)[i] == '&' ==> entity_at(
                escaped(s),
                i,
            ),
    decreases s.len(),
{
    if s.len() > 0 {
        lemma_escaped_ampersands_begin_entities(s.drop_last());
        let p = escaped(s.drop_last());
        let e = escape_char(s.last());
        let t = escaped(s);
        assert(t == p + e);
        assert forall|i: int| 0 <= i < t.len() && #[trigger] t[i] == '&' implies entity_at(t, i) by {
            if i < p.len() {
                assert(p[i] == t[i]);
                assert(entity_at(p, i));
                assert(t.skip(i) =~= p.skip(i) + e);
                if has_prefix(p.skip(i), amp_entity()) {
                    lemma_prefix_of_concat(p.skip(i), e, amp_entity());
                }
                if has_prefix(p.skip(i), lt_entity()) {
                    lemma_prefix_of_concat(p.skip(i), e, lt_entity());
                }
                if has_prefix(p.skip(i), gt_entity()) {
                    lemma_prefix_of_concat(p.skip(i), e, gt_entity());
                }
                if has_prefix(p.skip(i), quot_entity()) {
                    lemma_prefix_of_concat(p.skip(i), e, quot_entity());
                }
                if has_prefix(p.skip(i), apos_entity()) {
                    lemma_prefix_of_concat(p.skip(i), e, apos_entity());
                }
            } else {
                let k = i - p.len();
                assert(e[k] == t[i]);
                lemma_escape_char_ampersand(s.last(), k);
                assert(t.skip(i) =~= e.skip(0));
            }
        }
    }
}

/// Appends the attribute text for `s` to `out`.
fn push_escaped(out: &mut String, s: &str)
    ensures
        final(out)@ == old(out)@ + escaped(s@),
{
    let ghost start = out@;
    for c in it: s.chars()
        invariant
            it.seq() == s@,
            out@ == start + escaped(it.seq().take(it.index())),
    {
        let ghost before = out@;
        if c == '&' {
            out.append("&amp;");
        } else if c == '<' {
            out.append("&lt;");
        } else if c == '>' {
            out.append("&gt;");
        } else if c == '"' {
            out.append("&quot;");
        } else if c == '\'' {
            out.append("&apos;");
        } else {
            push_char(out, c);
        }
        proof {
            let t = it.seq().take(it.index() + 1);
            assert(t.drop_last() =~= it.seq().take(it.index()));
            assert(out@ =~= before + escape_char(c));
            assert(out@ =~= start + escaped(t));
        }
    }
    assert(s@.take(s@.len() as int) =~= s@);
}

/// Escape the five XML predefined entities for attribute content.
pub fn esc(s: &str) -> (r: String)
    ensures
        r@ == escaped(s@),
{
    let mut o = String::new();
    push_escaped(&mut o, s);
    assert(o@ =~= escaped(s@));
    o
}

/// Appends the `<Hash>` element for `h` to `x`.
pub fn write_hash(x: &mut String, h: &HashNode)
    ensures
        final(x)@ == old(x)@ + hash_xml(*h),
{
    x.append("<Hash alg=\"");
    push_escaped(x, h.alg.0.as_str());
    x.append("\" value=\"");
    push_escaped(x, h.value.0.as_str());
    x.append("\" />");
    assert(x@ =~= old(x)@ + hash_xml(*h));
}

fn write_opt_hash(x: &mut String, h: &Option<HashNode>)
    ensures
        final(x)@ == old(x)@ + opt_hash_xml(*h),
{
    match h {
        Some(h) => write_hash(x, h),
        None => {
            assert(x@ =~= old(x)@ + opt_hash_xml(None));
        },
    }
}

fn write_location(x: &mut String, l: &LocationNode)
    ensures
        final(x)@ == old(x)@ + location_xml(*l),
{
    x.append("<Location id=\"");
    push_decimal(x, l.id as u64);
    x.append("\" path=\"");
    push_escaped(x, l.path.0.as_str());
    x.append("\" flags=\"");
    push_escaped(x, l.flags.0.as_str());
    x.append("\" />");
    assert(x@ =~= old(x)@ + location_xml(*l));
}

fn write_delta(x: &mut String, d: &Option<DeltaNode>)
    ensures
        final(x)@ == old(x)@ + delta_xml(*d),
{
    match d {
        Some(d) => {
            let s = &d.source;
            x.append("<Delta><Source type=\"");
            push_escaped(x, s.kind.0.as_str());
            x.append("\" offset=\"");
            push_decimal(x, s.offset);
            x.append("\" length=\"");
            push_decimal(x, s.length);
            x.append("\">");
            write_opt_hash(x, &s.hash);
            x.append("</Source></Delta>");
            assert(x@ =~= old(x)@ + delta_xml(Some(*d)));
        },
        None => {
            assert(x@ =~= old(x)@ + delta_xml(None));
        },
    }
}

fn write_file(x: &mut String, f: &FileNode)
    ensures
        final(x)@ == old(x)@ + file_xml(*f),
{
    x.append("<File id=\"");
    push_decimal(x, f.id as u64);
    x.append("\" name=\"");
    push_escaped(x, f.name.0.as_str());
    x.append("\" length=\"");
    push_decimal(x, f.length);
    x.append("\" time=\"");
    push_escaped(x, f.time.0.as_str());
    x.append("\" attr=\"");
    push_escaped(x, f.attr.0.as_str());
    x.append("\">");
    write_opt_hash(x, &f.hash);
    write_delta(x, &f.delta);
    x.append("</File>");
    assert(x@ =~= old(x)@ + file_xml(*f));
}

fn write_container_open(x: &mut String, doc: &CixDoc)
    ensures
        final(x)@ == old(x)@ + container_open_xml(*doc),
{
    x.append("<?xml version=\"1.0\" encoding=\"utf-8\"?>");
    x.append("<Container name=\"");
    push_escaped(x, doc.name.0.as_str());
    x.append("\" type=\"");
    push_escaped(x, doc.kind.0.as_str());
    x.append("\" length=\"");
    push_decimal(x, doc.length);
    x.append("\" version=\"");
    push_escaped(x, doc.version.0.as_str());
    x.append("\" xmlns=\"urn:ContainerIndex\">");
    assert(x@ =~= old(x)@ + container_open_xml(*doc));
}

fn write_basis_search(x: &mut String, ls: &Vec<LocationNode>)
    ensures
        final(x)@ == old(x)@ + basis_search_xml(ls@),
{
    if ls.len() == 0 {
        assert(x@ =~= old(x)@ + basis_search_xml(ls@));
        return;
    }
    x.append("<DeltaBasisSearch>");
    let ghost start = x@;
    let n = ls.len();
    let mut i: usize = 0;
    while i < n
        invariant
            n == ls@.len(),
            0 <= i <= n,
            x@ == start + locations_xml(ls@.take(i as int)),
        decreases n - i,
    {
        write_location(x, &ls[i]);
        assert(ls@.take(i + 1).drop_last() =~= ls@.take(i as int));
        assert(x@ =~= start + locations_xml(ls@.take(i + 1)));
        i = i + 1;
    }
    assert(ls@.take(n as int) =~= ls@);
    x.append("</DeltaBasisSearch>");
    assert(x@ =~= old(x)@ + basis_search_xml(ls@));
}

fn write_files(x: &mut String, fs: &Vec<FileNode>)
    ensures
        final(x)@ == old(x)@ + files_xml(fs@),
{
    let ghost start = x@;
    let n = fs.len();
    let mut i: usize = 0;
    while i < n
        invariant
            n == fs@.len(),
            0 <= i <= n,
            x@ == start + files_xml(fs@.take(i as int)),
        decreases n - i,
    {
        write_file(x, &fs[i]);
        assert(fs@.take(i + 1).drop_last() =~= fs@.take(i as int));
        assert(x@ =~= start + files_xml(fs@.take(i + 1)));
        i = i + 1;
    }
    assert(fs@.take(n as int) =~= fs@);
    assert(x@ =~= start + files_xml(fs@));
}

impl CixDoc {
    /// Render to a well-formed `urn:ContainerIndex` document matching the
    /// schema the parser expects (default namespace, unprefixed elements).
    pub fn render(&self) -> (r: String)
        ensures
            r@ == rendered(*self),
    {
        let mut x = String::new();
        write_container_open(&mut x, self);
        write_basis_search(&mut x, &self.locations);
        x.append("<Files>");
        write_files(&mut x, &self.files);
        x.append("</Files></Container>");
        assert(x@ =~= rendered(*self));
        x
    }
}

} // verus!
