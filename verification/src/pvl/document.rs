//! The structural parser: one pass over the label text builds the document
//! of top-level properties, `GROUP` blocks and `OBJECT` blocks, terminated
//! by the text's end or an `END` line.

use vstd::prelude::*;

use crate::chars::{lemma_run_end, run_end, CharClass};
use crate::text::{chars_of, string_eq_chars};
use super::error::Error;
use super::grouping::{
    grouping_lookup, lemma_grouping_lookup_at, lemma_grouping_lookup_none,
    lemma_property_lookup_at, lemma_property_lookup_none, pair_matches_name, property_lookup,
    Group, GroupingModel, KeyValuePair, KeyValuePairModel, Object, PropertyGrouping,
};
use super::reader::{
    blank_line_at, comment_close_from, comment_open_at, end_keyword_at, error_has_kind,
    group_body_at, group_keyword_at, lemma_group_body_at, lemma_read_group_at,
    lemma_read_key_value_at, line_start_at, object_keyword_at, read_group_at,
    read_key_value_at, without_carriage_returns, FailureKind, PvlReader,
};
use super::symbol::Symbol;
use super::value::{inferred_type, ValueModel};

verus! {

/// The mathematical shape of a parsed document.
pub struct DocumentModel {
    pub properties: Seq<KeyValuePairModel>,
    pub groups: Seq<GroupingModel>,
    pub objects: Seq<GroupingModel>,
}

impl DocumentModel {
    /// The document with nothing in it.
    pub open spec fn empty() -> DocumentModel {
        DocumentModel { properties: Seq::empty(), groups: Seq::empty(), objects: Seq::empty() }
    }
}

/// What one parse pass yields.
pub struct ParseOutcome {
    pub doc: DocumentModel,
    pub err: Option<FailureKind>,
}

/// One step of the parsing loop at position `p`: the pass ends at the
/// text's end or at an `END` keyword; a comment is skipped; at a non-blank
/// line start a group, an object or a key-value pair is read, an `END` key
/// ends the pass, and a line whose pair cannot be read is skipped; any
/// other position gives its line up. After each step the cursor resumes at
/// the next line.
pub open spec fn parse_from(t: Seq<char>, p: int, acc: DocumentModel) -> ParseOutcome
    decreases t.len() - p, 0int
        when 0 <= p <= t.len()
        via parse_from_dec
{
    if p >= t.len() || end_keyword_at(t, p) {
        ParseOutcome { doc: acc, err: None }
    } else if comment_open_at(t, p) {
        match comment_close_from(t, p) {
            None => ParseOutcome { doc: acc, err: Some(FailureKind::Eof) },
            Some(ce) => parse_resume(t, ce + 2, acc),
        }
    } else if line_start_at(t, p) && !blank_line_at(t, p) {
        if group_keyword_at(t, p) {
            let g = read_group_at(t, p, false);
            match g.err {
                Some(k) => ParseOutcome { doc: acc, err: Some(k) },
                None => parse_resume(
                    t,
                    g.end,
                    DocumentModel {
                        groups: acc.groups.push(
                            GroupingModel { name: g.name, properties: g.properties },
                        ),
                        ..acc
                    },
                ),
            }
        } else if object_keyword_at(t, p) {
            let g = read_group_at(t, p, true);
            match g.err {
                Some(k) => ParseOutcome { doc: acc, err: Some(k) },
                None => parse_resume(
                    t,
                    g.end,
                    DocumentModel {
                        objects: acc.objects.push(
                            GroupingModel { name: g.name, properties: g.properties },
                        ),
                        ..acc
                    },
                ),
            }
        } else {
            let kv = read_key_value_at(t, p);
            match kv.err {
                Some(_) => parse_resume(t, run_end(t, kv.end, CharClass::NotNewline), acc),
                None => {
                    if kv.key is End {
                        ParseOutcome { doc: acc, err: None }
                    } else {
                        parse_resume(
                            t,
                            kv.end,
                            DocumentModel {
                                properties: acc.properties.push(
                                    KeyValuePairModel {
                                        key: kv.key,
                                        value: ValueModel {
                                            raw: kv.value,
                                            vtype: inferred_type(kv.value),
                                        },
                                    },
                                ),
                                ..acc
                            },
                        )
                    }
                },
            }
        }
    } else {
        let le = run_end(t, p, CharClass::NotNewline);
        if le >= t.len() || end_keyword_at(t, le) {
            ParseOutcome { doc: acc, err: None }
        } else {
            let nr = run_end(t, le, CharClass::Newline);
            if nr >= t.len() {
                ParseOutcome { doc: acc, err: Some(FailureKind::Eof) }
            } else {
                parse_from(t, nr, acc)
            }
        }
    }
}

/// The move to the next loop iteration: nothing when the pass is over,
/// otherwise the cursor skips the line feeds under it, and running off the
/// text's end that way fails the parse.
pub open spec fn parse_resume(t: Seq<char>, p: int, acc: DocumentModel) -> ParseOutcome
    decreases t.len() - p, 1int
        when 0 <= p <= t.len()
        via parse_resume_dec
{
    if p >= t.len() || end_keyword_at(t, p) {
        ParseOutcome { doc: acc, err: None }
    } else {
        let nr = run_end(t, p, CharClass::Newline);
        if nr >= t.len() {
            ParseOutcome { doc: acc, err: Some(FailureKind::Eof) }
        } else {
            parse_from(t, nr, acc)
        }
    }
}

#[via_fn]
proof fn parse_resume_dec(t: Seq<char>, p: int, acc: DocumentModel) {
    if 0 <= p && p < t.len() && !end_keyword_at(t, p) {
        lemma_run_end(t, p, CharClass::Newline);
    }
}

#[via_fn]
proof fn parse_from_dec(t: Seq<char>, p: int, acc: DocumentModel) {
    if 0 <= p <= t.len() && p < t.len() && !end_keyword_at(t, p) {
        lemma_run_end(t, p, CharClass::NotNewline);
        if comment_open_at(t, p) {
            lemma_comment_close_bounds(t, p);
        } else if line_start_at(t, p) && !blank_line_at(t, p) {
            if group_keyword_at(t, p) {
                lemma_read_group_at(t, p, false);
            } else if object_keyword_at(t, p) {
                lemma_read_group_at(t, p, true);
            } else {
                lemma_read_key_value_at(t, p);
                let kv = read_key_value_at(t, p);
                if kv.err is Some {
                    lemma_run_end(t, kv.end, CharClass::NotNewline);
                }
            }
        } else {
            lemma_run_end(t, p, CharClass::NotNewline);
            let le = run_end(t, p, CharClass::NotNewline);
            if 0 <= le < t.len() {
                lemma_run_end(t, le, CharClass::Newline);
            }
        }
    }
}

proof fn lemma_comment_close_bounds(t: Seq<char>, p: int)
    requires
        0 <= p,
    ensures
        comment_close_from(t, p) matches Some(ce) ==> p <= ce && ce + 1 < t.len(),
    decreases t.len() - p,
{
    if p + 1 < t.len() && !(t[p] == '*' && t[p + 1] == '/') {
        lemma_comment_close_bounds(t, p + 1);
    }
}

/// What parsing a whole label text yields.
pub open spec fn parse_document(t: Seq<char>) -> ParseOutcome {
    parse_from(t, 0, DocumentModel::empty())
}

/// Every pair's value carries exactly the type inferred from its raw text.
pub open spec fn pairs_wf(ps: Seq<KeyValuePairModel>) -> bool {
    forall|i: int|
        0 <= i < ps.len() ==> (#[trigger] ps[i]).value.vtype == inferred_type(ps[i].value.raw)
}

/// No pair's key is the block-closing marker of the given block kind.
pub open spec fn excludes_marker(ps: Seq<KeyValuePairModel>, object: bool) -> bool {
    forall|i: int|
        0 <= i < ps.len() ==> if object {
            !((#[trigger] ps[i]).key is ObjectEnd)
        } else {
            !((#[trigger] ps[i]).key is GroupEnd)
        }
}

/// Every value of the document carries its inferred type, and no group or
/// object stores its own closing marker line as a property.
pub open spec fn document_wf(d: DocumentModel) -> bool {
    &&& pairs_wf(d.properties)
    &&& forall|i: int|
        0 <= i < d.groups.len() ==> pairs_wf(#[trigger] d.groups[i].properties) && excludes_marker(
            d.groups[i].properties,
            false,
        )
    &&& forall|i: int|
        0 <= i < d.objects.len() ==> pairs_wf(#[trigger] d.objects[i].properties)
            && excludes_marker(d.objects[i].properties, true)
}

proof fn lemma_group_body_wf(t: Seq<char>, p: int, acc: Seq<KeyValuePairModel>, object: bool)
    requires
        0 <= p <= t.len(),
        pairs_wf(acc),
        excludes_marker(acc, object),
    ensures
        pairs_wf(group_body_at(t, p, acc, object).properties),
        excludes_marker(group_body_at(t, p, acc, object).properties, object),
    decreases t.len() - p,
{
    if p < t.len() && line_start_at(t, p) {
        if blank_line_at(t, p) {
            lemma_run_end(t, p, CharClass::NotNewline);
            let le = run_end(t, p, CharClass::NotNewline);
            if le < t.len() - 1 {
                lemma_group_body_wf(t, le + 1, acc, object);
            }
        } else {
            lemma_read_key_value_at(t, p);
            let kv = read_key_value_at(t, p);
            if kv.err is None && !((object && kv.key is ObjectEnd) || (!object
                && kv.key is GroupEnd)) {
                let acc2 = acc.push(
                    KeyValuePairModel {
                        key: kv.key,
                        value: ValueModel { raw: kv.value, vtype: inferred_type(kv.value) },
                    },
                );
                assert(pairs_wf(acc2));
                assert(excludes_marker(acc2, object));
                lemma_group_body_wf(t, kv.end, acc2, object);
            }
        }
    }
}

proof fn lemma_parse_from_wf(t: Seq<char>, p: int, acc: DocumentModel)
    requires
        0 <= p <= t.len(),
        document_wf(acc),
    ensures
        document_wf(parse_from(t, p, acc).doc),
    decreases t.len() - p, 0int,
{
    if p < t.len() && !end_keyword_at(t, p) {
        if comment_open_at(t, p) {
            lemma_comment_close_bounds(t, p);
            if comment_close_from(t, p) is Some {
                lemma_parse_resume_wf(t, comment_close_from(t, p)->0 + 2, acc);
            }
        } else if line_start_at(t, p) && !blank_line_at(t, p) {
            if group_keyword_at(t, p) {
                lemma_read_group_at(t, p, false);
                let g = read_group_at(t, p, false);
                if g.err is None {
                    lemma_read_key_value_at(t, p);
                    let kv = read_key_value_at(t, p);
                    lemma_group_body_at(t, kv.end, Seq::empty(), false);
                    lemma_group_body_wf(t, kv.end, Seq::empty(), false);
                    let acc2 = DocumentModel {
                        groups: acc.groups.push(
                            GroupingModel { name: g.name, properties: g.properties },
                        ),
                        ..acc
                    };
                    assert(document_wf(acc2));
                    lemma_parse_resume_wf(t, g.end, acc2);
                }
            } else if object_keyword_at(t, p) {
                lemma_read_group_at(t, p, true);
                let g = read_group_at(t, p, true);
                if g.err is None {
                    lemma_read_key_value_at(t, p);
                    let kv = read_key_value_at(t, p);
                    lemma_group_body_at(t, kv.end, Seq::empty(), true);
                    lemma_group_body_wf(t, kv.end, Seq::empty(), true);
                    let acc2 = DocumentModel {
                        objects: acc.objects.push(
                            GroupingModel { name: g.name, properties: g.properties },
                        ),
                        ..acc
                    };
                    assert(document_wf(acc2));
                    lemma_parse_resume_wf(t, g.end, acc2);
                }
            } else {
                lemma_read_key_value_at(t, p);
                let kv = read_key_value_at(t, p);
                lemma_run_end(t, kv.end, CharClass::NotNewline);
                match kv.err {
                    Some(_) => {
                        lemma_parse_resume_wf(t, run_end(t, kv.end, CharClass::NotNewline), acc);
                    },
                    None => {
                        if !(kv.key is End) {
                            let acc2 = DocumentModel {
                                properties: acc.properties.push(
                                    KeyValuePairModel {
                                        key: kv.key,
                                        value: ValueModel {
                                            raw: kv.value,
                                            vtype: inferred_type(kv.value),
                                        },
                                    },
                                ),
                                ..acc
                            };
                            assert(document_wf(acc2));
                            lemma_parse_resume_wf(t, kv.end, acc2);
                        }
                    },
                }
            }
        } else {
            lemma_run_end(t, p, CharClass::NotNewline);
            let le = run_end(t, p, CharClass::NotNewline);
            if le < t.len() && !end_keyword_at(t, le) {
                lemma_run_end(t, le, CharClass::Newline);
                let nr = run_end(t, le, CharClass::Newline);
                if nr < t.len() {
                    lemma_parse_from_wf(t, nr, acc);
                }
            }
        }
    }
}

proof fn lemma_parse_resume_wf(t: Seq<char>, p: int, acc: DocumentModel)
    requires
        0 <= p <= t.len(),
        document_wf(acc),
    ensures
        document_wf(parse_resume(t, p, acc).doc),
    decreases t.len() - p, 1int,
{
    if !(p >= t.len() || end_keyword_at(t, p)) {
        let nr = run_end(t, p, CharClass::Newline);
        lemma_run_end(t, p, CharClass::Newline);
        if nr < t.len() {
            lemma_parse_from_wf(t, nr, acc);
        }
    }
}

/// A successfully parsed document is well formed: every value carries the
/// type inferred from its raw text, and no group stores its `END_GROUP`
/// line, nor any object its `END_OBJECT` line, among its properties.
pub proof fn lemma_parse_document_wellformed(t: Seq<char>)
    ensures
        document_wf(parse_document(t).doc),
{
    assert(document_wf(DocumentModel::empty()));
    lemma_parse_from_wf(t, 0, DocumentModel::empty());
}

/// Parsing is a pure function of the label text: re-parsing the same text
/// yields the same document, so every derived count — properties, groups,
/// objects — is stable across repeated parses.
pub proof fn lemma_parse_stable(t: Seq<char>, a: DocumentModel, b: DocumentModel)
    requires
        a == parse_document(t).doc,
        b == parse_document(t).doc,
    ensures
        a == b,
        a.properties.len() == b.properties.len(),
        a.groups.len() == b.groups.len(),
        a.objects.len() == b.objects.len(),
{
}

/// A parsed label: the top-level properties, groups and objects, each in
/// the order the text gave them.
#[derive(Debug)]
pub struct Pvl {
    pub properties: Vec<KeyValuePair>,
    pub groups: Vec<Group>,
    pub objects: Vec<Object>,
}

impl View for Pvl {
    type V = DocumentModel;

    open spec fn view(&self) -> DocumentModel {
        DocumentModel {
            properties: self.properties@.map_values(|p: KeyValuePair| p@),
            groups: self.groups@.map_values(|g: Group| g.model()),
            objects: self.objects@.map_values(|o: Object| o.model()),
        }
    }
}

impl Pvl {
    /// Parses the contents of a PVL-formatted text.
    #[verifier::loop_isolation(false)]
    #[verifier::rlimit(60)]
    pub fn from_string(content: &str) -> (r: Result<Pvl, Error>)
        ensures
            ({
                let o = parse_document(without_carriage_returns(content@));
                match o.err {
                    None => r matches Ok(pvl) && pvl@ == o.doc,
                    Some(k) => r matches Err(e) && error_has_kind(e, k),
                }
            }),
    {
        let mut reader = PvlReader::new(content);
        let ghost t = reader@.text;
        let mut pvl = Pvl { properties: Vec::new(), groups: Vec::new(), objects: Vec::new() };
        proof {
            assert(pvl@.properties =~= DocumentModel::empty().properties);
            assert(pvl@.groups =~= DocumentModel::empty().groups);
            assert(pvl@.objects =~= DocumentModel::empty().objects);
        }
        let mut done = false;
        while !done
            invariant
                reader.wf(),
                reader@.text == t,
                !done ==> parse_from(t, 0, DocumentModel::empty()) == parse_from(
                    t,
                    reader@.pos,
                    pvl@,
                ),
                done ==> ({
                    let o = parse_from(t, 0, DocumentModel::empty());
                    o.err is None && pvl@ == o.doc
                }),
            decreases (if done {
                0int
            } else {
                1int
            }), t.len() - reader@.pos,
        {
            let ghost p = reader@.pos;
            let ghost accm = pvl@;
            if reader.is_eof() || reader.is_at_end() {
                proof {
                    assert(parse_from(t, p, accm) == (ParseOutcome { doc: accm, err: None }));
                }
                done = true;
            } else {
                let com = match reader.is_at_multiline_comment_start() {
                    Ok(b) => b,
                    Err(_) => false,
                };
                if com {
                    match reader.skip_multiline_comment() {
                        Ok(_) => {
                            proof {
                                lemma_comment_close_bounds(t, p);
                            }
                        },
                        Err(e) => {
                            proof {
                                assert(parse_from(t, p, accm) == (ParseOutcome {
                                    doc: accm,
                                    err: Some(FailureKind::Eof),
                                }));
                            }
                            return Err(e);
                        },
                    }
                } else {
                    let ls = match reader.is_at_line_start() {
                        Ok(b) => b,
                        Err(e) => { return Err(e) },
                    };
                    let blank = if ls {
                        match reader.is_blank_line() {
                            Ok(b) => b,
                            Err(_) => false,
                        }
                    } else {
                        false
                    };
                    if ls && !blank {
                        let atg = match reader.is_at_group() {
                            Ok(b) => b,
                            Err(e) => { return Err(e) },
                        };
                        if atg {
                            match reader.read_group() {
                                Ok(g) => {
                                    let ghost gm = g.model();
                                    pvl.groups.push(g);
                                    proof {
                                        lemma_read_group_at(t, p, false);
                                        assert(pvl@.groups =~= accm.groups.push(gm));
                                        assert(pvl@.properties =~= accm.properties);
                                        assert(pvl@.objects =~= accm.objects);
                                    }
                                },
                                Err(e) => {
                                    proof {
                                        assert(parse_from(t, p, accm).doc == accm);
                                        assert(parse_from(t, p, accm).err == read_group_at(
                                            t,
                                            p,
                                            false,
                                        ).err);
                                    }
                                    return Err(e);
                                },
                            }
                        } else {
                            let ato = match reader.is_at_object() {
                                Ok(b) => b,
                                Err(e) => { return Err(e) },
                            };
                            if ato {
                                match reader.read_object() {
                                    Ok(g) => {
                                        let ghost gm = g.model();
                                        pvl.objects.push(g);
                                        proof {
                                            lemma_read_group_at(t, p, true);
                                            assert(pvl@.objects =~= accm.objects.push(gm));
                                            assert(pvl@.properties =~= accm.properties);
                                            assert(pvl@.groups =~= accm.groups);
                                        }
                                    },
                                    Err(e) => {
                                        proof {
                                            assert(parse_from(t, p, accm).doc == accm);
                                            assert(parse_from(t, p, accm).err == read_group_at(
                                                t,
                                                p,
                                                true,
                                            ).err);
                                        }
                                        return Err(e);
                                    },
                                }
                            } else {
                                match reader.read_key_value_pair_raw() {
                                    Ok(kvp) => {
                                        let is_end = matches!(kvp.key, Symbol::End);
                                        if is_end {
                                            proof {
                                                assert(parse_from(t, p, accm) == (ParseOutcome {
                                                    doc: accm,
                                                    err: None,
                                                }));
                                            }
                                            done = true;
                                        } else {
                                            let ghost km = kvp@;
                                            pvl.properties.push(kvp);
                                            proof {
                                                lemma_read_key_value_at(t, p);
                                                assert(pvl@.properties =~= accm.properties.push(
                                                    km,
                                                ));
                                                assert(pvl@.groups =~= accm.groups);
                                                assert(pvl@.objects =~= accm.objects);
                                            }
                                        }
                                    },
                                    Err(_) => {
                                        proof {
                                            lemma_read_key_value_at(t, p);
                                            lemma_run_end(
                                                t,
                                                read_key_value_at(t, p).end,
                                                CharClass::NotNewline,
                                            );
                                        }
                                        reader.advance_to_line_end();
                                    },
                                }
                            }
                        }
                    } else {
                        proof {
                            lemma_run_end(t, p, CharClass::NotNewline);
                        }
                        reader.advance_to_line_end();
                    }
                }
                let ghost mid = reader@.pos;
                proof {
                    if !done {
                        assert(parse_from(t, p, accm) == parse_resume(t, mid, pvl@));
                    }
                }
                if !done {
                    if !reader.is_eof() && !reader.is_at_end() {
                        if let Err(e) = reader.jump_to_next_line() {
                            proof {
                                assert(parse_resume(t, mid, pvl@) == (ParseOutcome {
                                    doc: pvl@,
                                    err: Some(FailureKind::Eof),
                                }));
                            }
                            return Err(e);
                        }
                    }
                    proof {
                        lemma_run_end(t, mid, CharClass::Newline);
                        assert(parse_resume(t, mid, pvl@) == parse_from(t, reader@.pos, pvl@));
                    }
                }
            }
        }
        Ok(pvl)
    }

    /// The first top-level property whose key or pointer text equals
    /// `name`.
    pub fn get_property(&self, name: &str) -> (r: Option<&KeyValuePair>)
        ensures
            match property_lookup(self@.properties, name@) {
                Some(i) => r matches Some(p) && p@ == self@.properties[i],
                None => r is None,
            },
    {
        let ghost ps = self@.properties;
        let q = chars_of(name);
        let mut i: usize = 0;
        loop
            invariant
                i <= self.properties@.len(),
                ps == self@.properties,
                ps.len() == self.properties@.len(),
                q@ == name@,
                forall|j: int| 0 <= j < i ==> !pair_matches_name(ps[j], name@),
            ensures
                i == ps.len(),
                forall|j: int| 0 <= j < ps.len() ==> !pair_matches_name(ps[j], name@),
            decreases self.properties@.len() - i,
        {
            if i < self.properties.len() {
                let p = &self.properties[i];
                let hit = match &p.key {
                    Symbol::Key(n) => string_eq_chars(n, &q),
                    Symbol::Pointer(n) => string_eq_chars(n, &q),
                    _ => false,
                };
                proof {
                    assert(ps[i as int] == self.properties@[i as int]@);
                    assert(hit == pair_matches_name(ps[i as int], name@));
                }
                if hit {
                    proof {
                        lemma_property_lookup_at(ps, name@, i as int);
                    }
                    return Some(&self.properties[i]);
                }
                i = i + 1;
            } else {
                break ;
            }
        }
        proof {
            lemma_property_lookup_none(ps, name@);
        }
        None
    }

    /// Whether a top-level property of that name exists.
    pub fn has_property(&self, name: &str) -> (r: bool)
        ensures
            r == (property_lookup(self@.properties, name@) is Some),
    {
        match self.get_property(name) {
            Some(_) => {
                proof {
                    super::grouping::lemma_property_lookup_some(self@.properties, name@);
                }
                true
            },
            None => false,
        }
    }

    /// The first group of that name.
    pub fn get_group(&self, name: &str) -> (r: Option<&Group>)
        ensures
            match grouping_lookup(self@.groups, name@) {
                Some(i) => r matches Some(g) && g.model() == self@.groups[i],
                None => r is None,
            },
    {
        let ghost gs = self@.groups;
        let q = chars_of(name);
        let mut i: usize = 0;
        loop
            invariant
                i <= self.groups@.len(),
                gs == self@.groups,
                gs.len() == self.groups@.len(),
                q@ == name@,
                forall|j: int| 0 <= j < i ==> gs[j].name != name@,
            ensures
                i == gs.len(),
                forall|j: int| 0 <= j < gs.len() ==> gs[j].name != name@,
            decreases self.groups@.len() - i,
        {
            if i < self.groups.len() {
                proof {
                    assert(gs[i as int] == self.groups@[i as int].model());
                }
                let hit = string_eq_chars(&self.groups[i].name, &q);
                if hit {
                    proof {
                        lemma_grouping_lookup_at(gs, name@, i as int);
                    }
                    return Some(&self.groups[i]);
                }
                i = i + 1;
            } else {
                break ;
            }
        }
        proof {
            lemma_grouping_lookup_none(gs, name@);
        }
        None
    }

    /// The first object of that name.
    pub fn get_object(&self, name: &str) -> (r: Option<&Object>)
        ensures
            match grouping_lookup(self@.objects, name@) {
                Some(i) => r matches Some(o) && o.model() == self@.objects[i],
                None => r is None,
            },
    {
        let ghost os = self@.objects;
        let q = chars_of(name);
        let mut i: usize = 0;
        loop
            invariant
                i <= self.objects@.len(),
                os == self@.objects,
                os.len() == self.objects@.len(),
                q@ == name@,
                forall|j: int| 0 <= j < i ==> os[j].name != name@,
            ensures
                i == os.len(),
                forall|j: int| 0 <= j < os.len() ==> os[j].name != name@,
            decreases self.objects@.len() - i,
        {
            if i < self.objects.len() {
                proof {
                    assert(os[i as int] == self.objects@[i as int].model());
                }
                let hit = string_eq_chars(&self.objects[i].name, &q);
                if hit {
                    proof {
                        lemma_grouping_lookup_at(os, name@, i as int);
                    }
                    return Some(&self.objects[i]);
                }
                i = i + 1;
            } else {
                break ;
            }
        }
        proof {
            lemma_grouping_lookup_none(os, name@);
        }
        None
    }
}

} // verus!
