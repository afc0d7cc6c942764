//! The structure parser: one ctags-style tag-file line at a time is turned
//! into a raw class record. A class header line is tab-delimited —
//! `<class_name> \t <file_name> \t <address> \t class [\t key:value ...]` —
//! and an optional trailing `inherits:` field names the parents, comma
//! separated, each kept verbatim. Lines beginning with `!` are tool
//! metadata; those, and lines matching no known grammar, are skipped
//! without error.

use vstd::prelude::*;
use vstd::string::StrSliceExecFns;

use crate::coco_struct::{ClassInfo, RecordView};
use crate::strutil::{spec_has_prefix, split_on, split_str, str_eq, str_has_prefix};

verus! {

/// A character a class name may hold: a letter, a digit, or an underscore.
pub open spec fn spec_is_ident_char(c: char) -> bool {
    let u = c as u32;
    ('a' as u32) <= u <= ('z' as u32) || ('A' as u32) <= u <= ('Z' as u32) || ('0' as u32) <= u
        <= ('9' as u32) || u == ('_' as u32)
}

/// A well-formed class name: nonempty, identifier characters only.
pub open spec fn spec_is_ident(s: Seq<char>) -> bool {
    s.len() > 0 && (forall|i: int| 0 <= i < s.len() ==> spec_is_ident_char(s[i]))
}

/// The tab-delimited fields of one tag-file line.
pub open spec fn spec_fields(line: Seq<char>) -> Seq<Seq<char>> {
    split_on(line, '\t')
}

/// Whether a line matches the class-header grammar.
pub open spec fn spec_is_class_line(line: Seq<char>) -> bool {
    let fs = spec_fields(line);
    &&& line.len() > 0
    &&& line[0] != '!'
    &&& fs.len() >= 4
    &&& spec_is_ident(fs[0])
    &&& fs[1].len() > 0
    &&& fs[2].len() > 0
    &&& fs[3] == "class"@
}

/// The value of the first `inherits:` field at or after field `i`, if any.
pub open spec fn spec_inherits_value(fs: Seq<Seq<char>>, i: int) -> Option<Seq<char>>
    decreases fs.len() - i,
{
    if i < 0 || i >= fs.len() {
        None
    } else if spec_has_prefix(fs[i], "inherits:"@) {
        Some(fs[i].skip("inherits:"@.len() as int))
    } else {
        spec_inherits_value(fs, i + 1)
    }
}

/// The parent names a class-header line declares: the `inherits:` value
/// split on commas. An absent or empty value declares no parents.
pub open spec fn spec_parents_of_line(fs: Seq<Seq<char>>) -> Seq<Seq<char>> {
    match spec_inherits_value(fs, 4) {
        Some(v) => if v.len() > 0 {
            split_on(v, ',')
        } else {
            Seq::empty()
        },
        None => Seq::empty(),
    }
}

/// What one line yields: a record for a class-header line, nothing for
/// any other line.
pub open spec fn spec_parse_class(line: Seq<char>) -> Option<RecordView> {
    if spec_is_class_line(line) {
        let fs = spec_fields(line);
        Some(
            RecordView {
                name: fs[0],
                source_file: fs[1],
                parents: spec_parents_of_line(fs),
                members: Seq::empty(),
                methods: Seq::empty(),
            },
        )
    } else {
        None
    }
}

/// The records of a whole sequence of lines, in line order.
pub open spec fn spec_parse_seq(lines: Seq<Seq<char>>) -> Seq<RecordView>
    decreases lines.len(),
{
    if lines.len() == 0 {
        Seq::empty()
    } else {
        spec_parse_seq(lines.drop_last()) + match spec_parse_class(lines.last()) {
            Some(r) => seq![r],
            None => Seq::empty(),
        }
    }
}

/// Identifier test on a string slice, against `spec_is_ident`.
fn is_ident_str(s: &str) -> (r: bool)
    ensures
        r == spec_is_ident(s@),
{
    let n: usize = s.unicode_len();
    if n == 0 {
        return false;
    }
    let mut i: usize = 0;
    while i < n
        invariant
            n == s@.len(),
            0 <= i <= n,
            forall|j: int| 0 <= j < i ==> spec_is_ident_char(s@[j]),
        decreases n - i,
    {
        let c = s.get_char(i);
        let u = c as u32;
        let ok = (97 <= u && u <= 122) || (65 <= u && u <= 90) || (48 <= u && u <= 57) || u == 95;
        if !ok {
            return false;
        }
        i = i + 1;
    }
    true
}

/// The value of the first `inherits:` field among the trailing key:value
/// fields, if any, against `spec_inherits_value`.
fn find_inherits(fields: &Vec<String>) -> (r: Option<String>)
    ensures
        match r {
            Some(v) => spec_inherits_value(fields.deep_view(), 4) == Some(v@),
            None => spec_inherits_value(fields.deep_view(), 4) is None,
        },
{
    let ghost fs = fields.deep_view();
    let mut i: usize = 4;
    if fields.len() < 4 {
        return None;
    }
    while i < fields.len()
        invariant
            fs == fields.deep_view(),
            4 <= i <= fs.len(),
            spec_inherits_value(fs, 4) == spec_inherits_value(fs, i as int),
        decreases fs.len() - i,
    {
        let f = fields[i].as_str();
        if str_has_prefix(f, "inherits:") {
            let plen: usize = "inherits:".unicode_len();
            let flen: usize = f.unicode_len();
            let value = f.substring_char(plen, flen);
            proof {
                assert(fs[i as int] == f@);
                assert(value@ =~= f@.skip("inherits:"@.len() as int));
            }
            return Some(value.to_owned());
        }
        i = i + 1;
    }
    None
}

/// The structure parser: accumulates the class records of the lines it
/// has been fed, in order.
pub struct CtagsParser {
    pub classes: Vec<ClassInfo>,
}

impl Default for CtagsParser {
    /// A parser that has seen no line yet.
    fn default() -> (r: Self)
        ensures
            r.classes.deep_view() == Seq::<RecordView>::empty(),
    {
        let r = CtagsParser { classes: Vec::new() };
        proof {
            assert(r.classes.deep_view() =~= Seq::<RecordView>::empty());
        }
        r
    }
}

impl CtagsParser {
    /// Feeds one tag-file line: a class-header line appends exactly one
    /// record, populated with its name, source file, and verbatim parent
    /// names; any other line leaves the parser unchanged.
    pub fn parse_class(&mut self, line: &str)
        ensures
            final(self).classes.deep_view() == match spec_parse_class(line@) {
                Some(r) => old(self).classes.deep_view().push(r),
                None => old(self).classes.deep_view(),
            },
    {
        let n: usize = line.unicode_len();
        if n == 0 {
            return;
        }
        if line.get_char(0) == '!' {
            return;
        }
        let fields = split_str(line, '\t');
        let ghost fs = spec_fields(line@);
        if fields.len() < 4 {
            return;
        }
        proof {
            assert(fields.deep_view()[0] == fields@[0]@);
            assert(fields.deep_view()[1] == fields@[1]@);
            assert(fields.deep_view()[2] == fields@[2]@);
            assert(fields.deep_view()[3] == fields@[3]@);
        }
        if !is_ident_str(fields[0].as_str()) {
            return;
        }
        if fields[1].as_str().unicode_len() == 0 {
            return;
        }
        if fields[2].as_str().unicode_len() == 0 {
            return;
        }
        if !str_eq(fields[3].as_str(), "class") {
            return;
        }
        assert(spec_is_class_line(line@));
        let mut parents: Vec<String> = Vec::new();
        let inherits = find_inherits(&fields);
        match inherits {
            Some(v) => {
                if v.as_str().unicode_len() > 0 {
                    parents = split_str(v.as_str(), ',');
                }
            },
            None => {},
        }
        proof {
            assert(parents.deep_view() =~= spec_parents_of_line(fs));
        }
        let mut clazz = ClassInfo::new(fields[0].as_str());
        clazz.source_file = fields[1].clone();
        clazz.parents = parents;
        let ghost before = self.classes.deep_view();
        let ghost rec = spec_parse_class(line@)->Some_0;
        proof {
            assert(clazz@ == rec);
        }
        self.classes.push(clazz);
        proof {
            assert(self.classes.deep_view() =~= before.push(rec));
        }
    }

    /// Feeds a whole tag-file text, line by line: exactly the class-header
    /// lines contribute records, in line order.
    pub fn parse_lines(&mut self, text: &str)
        ensures
            final(self).classes.deep_view() == old(self).classes.deep_view() + spec_parse_seq(
                split_on(text@, '\n'),
            ),
    {
        let lines = split_str(text, '\n');
        let ghost ls = split_on(text@, '\n');
        let mut i: usize = 0;
        proof {
            assert(self.classes.deep_view() + spec_parse_seq(ls.take(0)) =~= self.classes.deep_view());
        }
        while i < lines.len()
            invariant
                lines.deep_view() == ls,
                0 <= i <= ls.len(),
                self.classes.deep_view() == old(self).classes.deep_view() + spec_parse_seq(
                    ls.take(i as int),
                ),
            decreases ls.len() - i,
        {
            let ghost before = self.classes.deep_view();
            self.parse_class(lines[i].as_str());
            proof {
                assert(lines.deep_view()[i as int] == lines@[i as int]@);
                assert(ls.take(i + 1).drop_last() =~= ls.take(i as int));
                assert(ls.take(i + 1).last() == ls[i as int]);
                match spec_parse_class(ls[i as int]) {
                    Some(r) => {
                        assert(spec_parse_seq(ls.take(i + 1)) =~= spec_parse_seq(
                            ls.take(i as int),
                        ).push(r));
                        assert(self.classes.deep_view() =~= old(self).classes.deep_view()
                            + spec_parse_seq(ls.take(i + 1)));
                    },
                    None => {
                        assert(spec_parse_seq(ls.take(i + 1)) =~= spec_parse_seq(
                            ls.take(i as int),
                        ));
                    },
                }
            }
            i = i + 1;
        }
        proof {
            assert(ls.take(ls.len() as int) =~= ls);
        }
    }

    /// The second extraction pass of the two-pass design. Tag lines for
    /// members and methods carry no grammar in this design, so the pass
    /// records nothing.
    pub fn parse_method_methods() {
    }
}

} // verus!
