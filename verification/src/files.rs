//! The built-in file-system tools: their definitions, how they read their arguments, and
//! the text they answer with. Reading and writing files and walking directories stay
//! with the caller.

use vstd::prelude::*;
use crate::message::ToolDefinition;
use crate::json::{
    json_bool_field, json_string_field, json_u64_field, spec_json_bool_field, spec_json_string_field,
    spec_json_u64_field,
};
use crate::text::{
    concat2, concat3, join, lines_of, spec_decimal, spec_join, spec_lines, texts, to_chars,
    u64_to_string,
};

verus! {

/// The JSON schema of `read_file`'s parameters.
pub open spec fn spec_read_file_parameters() -> Seq<char> {
    "{\"type\":\"object\",\"properties\":{\"path\":{\"type\":\"string\",\"description\":\"Path to the file\"},\"offset\":{\"type\":\"integer\",\"description\":\"Start line (0-based)\",\"default\":0},\"limit\":{\"type\":\"integer\",\"description\":\"Max lines to read\",\"default\":1000}},\"required\":[\"path\"]}"@
}

/// The JSON schema of `write_file`'s parameters.
pub open spec fn spec_write_file_parameters() -> Seq<char> {
    "{\"type\":\"object\",\"properties\":{\"path\":{\"type\":\"string\",\"description\":\"Path to the file\"},\"content\":{\"type\":\"string\",\"description\":\"Content to write\"},\"append\":{\"type\":\"boolean\",\"description\":\"Append instead of overwrite\",\"default\":false}},\"required\":[\"path\",\"content\"]}"@
}

/// The JSON schema of `list_directory`'s parameters.
pub open spec fn spec_list_directory_parameters() -> Seq<char> {
    "{\"type\":\"object\",\"properties\":{\"path\":{\"type\":\"string\",\"description\":\"Directory path\",\"default\":\".\"},\"pattern\":{\"type\":\"string\",\"description\":\"Glob pattern (e.g. '*.rs')\",\"default\":\"*\"}},\"required\":[\"path\"]}"@
}

/// The JSON schema of `search_files`' parameters.
pub open spec fn spec_search_files_parameters() -> Seq<char> {
    "{\"type\":\"object\",\"properties\":{\"path\":{\"type\":\"string\",\"description\":\"Directory to search in\",\"default\":\".\"},\"pattern\":{\"type\":\"string\",\"description\":\"Text or regex pattern to search\"},\"glob\":{\"type\":\"string\",\"description\":\"File glob filter (e.g. '*.rs')\",\"default\":\"*\"}},\"required\":[\"pattern\"]}"@
}

/// `d` is the definition with this name, description and schema.
pub open spec fn spec_defines(d: ToolDefinition, name: Seq<char>, description: Seq<char>, parameters: Seq<char>) -> bool {
    d.name@ == name && d.description@ == description && d.parameters@ == parameters
}

fn definition(name: &str, description: &str, parameters: &str) -> (d: ToolDefinition)
    ensures
        spec_defines(d, name@, description@, parameters@),
{
    ToolDefinition {
        name: name.to_owned(),
        description: description.to_owned(),
        parameters: parameters.to_owned(),
    }
}

/// The four file tools, in the order they are registered: `read_file`, `write_file`,
/// `list_directory`, `search_files`.
pub fn file_tool_definitions() -> (defs: Vec<ToolDefinition>)
    ensures
        defs@.len() == 4,
        spec_defines(
            defs@[0],
            "read_file"@,
            "Read the contents of a file. Supports optional line ranges."@,
            spec_read_file_parameters(),
        ),
        spec_defines(
            defs@[1],
            "write_file"@,
            "Write content to a file. Creates parent directories if needed."@,
            spec_write_file_parameters(),
        ),
        spec_defines(
            defs@[2],
            "list_directory"@,
            "List files and directories. Supports glob patterns."@,
            spec_list_directory_parameters(),
        ),
        spec_defines(
            defs@[3],
            "search_files"@,
            "Search for text patterns in files. Returns matching lines with file paths."@,
            spec_search_files_parameters(),
        ),
{
    let mut defs: Vec<ToolDefinition> = Vec::new();
    defs.push(definition(
        "read_file",
        "Read the contents of a file. Supports optional line ranges.",
        "{\"type\":\"object\",\"properties\":{\"path\":{\"type\":\"string\",\"description\":\"Path to the file\"},\"offset\":{\"type\":\"integer\",\"description\":\"Start line (0-based)\",\"default\":0},\"limit\":{\"type\":\"integer\",\"description\":\"Max lines to read\",\"default\":1000}},\"required\":[\"path\"]}",
    ));
    defs.push(definition(
        "write_file",
        "Write content to a file. Creates parent directories if needed.",
        "{\"type\":\"object\",\"properties\":{\"path\":{\"type\":\"string\",\"description\":\"Path to the file\"},\"content\":{\"type\":\"string\",\"description\":\"Content to write\"},\"append\":{\"type\":\"boolean\",\"description\":\"Append instead of overwrite\",\"default\":false}},\"required\":[\"path\",\"content\"]}",
    ));
    defs.push(definition(
        "list_directory",
        "List files and directories. Supports glob patterns.",
        "{\"type\":\"object\",\"properties\":{\"path\":{\"type\":\"string\",\"description\":\"Directory path\",\"default\":\".\"},\"pattern\":{\"type\":\"string\",\"description\":\"Glob pattern (e.g. '*.rs')\",\"default\":\"*\"}},\"required\":[\"path\"]}",
    ));
    defs.push(definition(
        "search_files",
        "Search for text patterns in files. Returns matching lines with file paths.",
        "{\"type\":\"object\",\"properties\":{\"path\":{\"type\":\"string\",\"description\":\"Directory to search in\",\"default\":\".\"},\"pattern\":{\"type\":\"string\",\"description\":\"Text or regex pattern to search\"},\"glob\":{\"type\":\"string\",\"description\":\"File glob filter (e.g. '*.rs')\",\"default\":\"*\"}},\"required\":[\"pattern\"]}",
    ));
    defs
}

/// A string argument, or `default` when it is absent or not a string.
pub open spec fn spec_str_arg(args: Seq<char>, key: Seq<char>, default: Seq<char>) -> Seq<char> {
    match spec_json_string_field(args, key) {
        Some(v) => v,
        None => default,
    }
}

/// A string argument, or `default`.
pub fn str_arg(args: &str, key: &str, default: &str) -> (r: String)
    ensures
        r@ == spec_str_arg(args@, key@, default@),
{
    match json_string_field(args, key) {
        Some(v) => v,
        None => default.to_owned(),
    }
}

/// A non-negative integer argument, or `default`.
pub open spec fn spec_u64_arg(args: Seq<char>, key: Seq<char>, default: u64) -> u64 {
    match spec_json_u64_field(args, key) {
        Some(v) => v,
        None => default,
    }
}

/// A non-negative integer argument, or `default`.
pub fn u64_arg(args: &str, key: &str, default: u64) -> (r: u64)
    ensures
        r == spec_u64_arg(args@, key@, default),
{
    match json_u64_field(args, key) {
        Some(v) => v,
        None => default,
    }
}

/// A boolean argument, or `default`.
pub open spec fn spec_bool_arg(args: Seq<char>, key: Seq<char>, default: bool) -> bool {
    match spec_json_bool_field(args, key) {
        Some(v) => v,
        None => default,
    }
}

/// A boolean argument, or `default`.
pub fn bool_arg(args: &str, key: &str, default: bool) -> (r: bool)
    ensures
        r == spec_bool_arg(args@, key@, default),
{
    match json_bool_field(args, key) {
        Some(v) => v,
        None => default,
    }
}

/// Arguments of `read_file`.
#[derive(Debug)]
pub struct ReadFileArgs {
    pub path: String,
    /// First line, counted from 0.
    pub offset: usize,
    /// Most lines to return.
    pub limit: usize,
}

/// Reads `read_file`'s arguments: `path` (default empty), `offset` (default 0) and
/// `limit` (default 1000).
pub fn read_file_args(args: &str) -> (r: ReadFileArgs)
    ensures
        r.path@ == spec_str_arg(args@, "path"@, ""@),
        r.offset == spec_u64_arg(args@, "offset"@, 0) as usize,
        r.limit == spec_u64_arg(args@, "limit"@, 1000) as usize,
{
    let path = str_arg(args, "path", "");
    let offset = u64_arg(args, "offset", 0) as usize;
    let limit = u64_arg(args, "limit", 1000) as usize;
    ReadFileArgs { path, offset, limit }
}

/// The numbered lines `read_file` answers with: the lines from `offset` on, at most
/// `limit` of them, each as `n: line` with `n` counted from 1.
pub open spec fn spec_numbered(lines: Seq<Seq<char>>, offset: nat, limit: nat) -> Seq<Seq<char>> {
    let n = if lines.len() <= offset {
        0
    } else if lines.len() - offset < limit {
        (lines.len() - offset) as nat
    } else {
        limit
    };
    Seq::new(n, |i: int| spec_decimal((offset + i + 1) as nat) + ": "@ + lines[offset + i])
}

/// What `read_file` answers for a file's content.
pub open spec fn spec_read_file_text(content: Seq<char>, offset: nat, limit: nat) -> Seq<char> {
    spec_join(spec_numbered(spec_lines(content), offset, limit), "\n"@)
}

/// The lines of `content` from `offset` on, at most `limit`, numbered from `offset + 1`
/// and joined with newlines.
pub fn read_file_text(content: &str, offset: usize, limit: usize) -> (r: String)
    ensures
        r@ == spec_read_file_text(content@, offset as nat, limit as nat),
{
    let chars = to_chars(content);
    let lines = lines_of(chars.as_slice());
    let ghost ls = spec_lines(content@);
    let n: usize = if lines.len() <= offset {
        0
    } else if lines.len() - offset < limit {
        lines.len() - offset
    } else {
        limit
    };
    let ghost target = spec_numbered(ls, offset as nat, limit as nat);
    let mut out: Vec<String> = Vec::new();
    let mut i: usize = 0;
    while i < n
        invariant
            i <= n,
            n == target.len(),
            n == 0 || offset + n <= lines.len(),
            texts(lines@) == ls,
            target == spec_numbered(ls, offset as nat, limit as nat),
            texts(out@) == target.subrange(0, i as int),
        decreases n - i,
    {
        let number = u64_to_string((offset + i + 1) as u64);
        let head = concat2(number.as_str(), ": ");
        let line = concat2(head.as_str(), lines[offset + i].as_str());
        let ghost before = out@;
        out.push(line);
        assert(texts(out@) =~= texts(before).push(line@));
        assert(target.subrange(0, i + 1) =~= target.subrange(0, i as int).push(target[i as int]));
        i += 1;
    }
    assert(target.subrange(0, n as int) =~= target);
    join(&out, "\n")
}

/// Arguments of `write_file`.
#[derive(Debug)]
pub struct WriteFileArgs {
    pub path: String,
    pub content: String,
    /// Append instead of overwriting.
    pub append: bool,
}

/// Reads `write_file`'s arguments: `path` and `content` (default empty), `append`
/// (default `false`).
pub fn write_file_args(args: &str) -> (r: WriteFileArgs)
    ensures
        r.path@ == spec_str_arg(args@, "path"@, ""@),
        r.content@ == spec_str_arg(args@, "content"@, ""@),
        r.append == spec_bool_arg(args@, "append"@, false),
{
    WriteFileArgs {
        path: str_arg(args, "path", ""),
        content: str_arg(args, "content", ""),
        append: bool_arg(args, "append", false),
    }
}

/// What `write_file` answers: the content's length in UTF-8 bytes and the path.
pub fn written_text(content: &str, path: &str) -> (r: String)
    ensures
        r@ == "Written "@ + spec_decimal(content.len() as nat) + " bytes to "@ + path@,
{
    let n = content.len();
    let digits = u64_to_string(n as u64);
    let head = concat3("Written ", digits.as_str(), " bytes to ");
    concat2(head.as_str(), path)
}

/// Arguments of `list_directory`.
#[derive(Debug)]
pub struct ListArgs {
    pub path: String,
    pub pattern: String,
}

/// Reads `list_directory`'s arguments: `path` (default `.`) and `pattern` (default `*`).
pub fn list_args(args: &str) -> (r: ListArgs)
    ensures
        r.path@ == spec_str_arg(args@, "path"@, "."@),
        r.pattern@ == spec_str_arg(args@, "pattern"@, "*"@),
{
    ListArgs { path: str_arg(args, "path", "."), pattern: str_arg(args, "pattern", "*") }
}

/// The glob that lists `pattern` under `dir`.
pub fn glob_under(dir: &str, pattern: &str) -> (r: String)
    ensures
        r@ == dir@ + "/"@ + pattern@,
{
    concat3(dir, "/", pattern)
}

/// What a listed path is.
#[derive(Debug, Clone, Copy, PartialEq, Eq, Structural)]
pub enum EntryKind {
    Dir,
    File,
    /// Its metadata could not be read.
    Unknown,
}

/// The tag of an entry kind.
pub open spec fn spec_kind_tag(k: EntryKind) -> Seq<char> {
    match k {
        EntryKind::Dir => "[dir]"@,
        EntryKind::File => "[file]"@,
        EntryKind::Unknown => "[?]"@,
    }
}

/// The line of one listed entry.
pub open spec fn spec_entry_line(k: EntryKind, path: Seq<char>) -> Seq<char> {
    spec_kind_tag(k) + " "@ + path
}

/// What `list_directory` answers for the entries it found, in order.
pub open spec fn spec_listing(entries: Seq<(EntryKind, Seq<char>)>) -> Seq<char> {
    if entries.len() == 0 {
        "No matching entries found."@
    } else {
        spec_join(entries.map_values(|e: (EntryKind, Seq<char>)| spec_entry_line(e.0, e.1)), "\n"@)
    }
}

/// What `list_directory` answers: one `[kind] path` line per entry, or a note that
/// nothing matched.
pub fn listing_text(entries: &Vec<(EntryKind, String)>) -> (r: String)
    ensures
        r@ == spec_listing(entries@.map_values(|e: (EntryKind, String)| (e.0, e.1@))),
{
    let ghost ev = entries@.map_values(|e: (EntryKind, String)| (e.0, e.1@));
    if entries.len() == 0 {
        return "No matching entries found.".to_owned();
    }
    let ghost target = ev.map_values(|e: (EntryKind, Seq<char>)| spec_entry_line(e.0, e.1));
    let mut lines: Vec<String> = Vec::new();
    let mut i: usize = 0;
    while i < entries.len()
        invariant
            i <= entries@.len(),
            ev == entries@.map_values(|e: (EntryKind, String)| (e.0, e.1@)),
            target == ev.map_values(|e: (EntryKind, Seq<char>)| spec_entry_line(e.0, e.1)),
            texts(lines@) == target.subrange(0, i as int),
        decreases entries.len() - i,
    {
        let tag = match entries[i].0 {
            EntryKind::Dir => "[dir]",
            EntryKind::File => "[file]",
            EntryKind::Unknown => "[?]",
        };
        let line = concat3(tag, " ", entries[i].1.as_str());
        let ghost before = lines@;
        lines.push(line);
        assert(texts(lines@) =~= texts(before).push(line@));
        assert(target.subrange(0, i + 1) =~= target.subrange(0, i as int).push(target[i as int]));
        i += 1;
    }
    assert(target.subrange(0, i as int) =~= target);
    join(&lines, "\n")
}

/// Arguments of `search_files`.
#[derive(Debug)]
pub struct SearchArgs {
    pub path: String,
    pub pattern: String,
    /// Glob that selects the files.
    pub glob: String,
}

/// Reads `search_files`' arguments: `path` (default `.`), `pattern` (default empty) and
/// `glob` (default `*`).
pub fn search_args(args: &str) -> (r: SearchArgs)
    ensures
        r.path@ == spec_str_arg(args@, "path"@, "."@),
        r.pattern@ == spec_str_arg(args@, "pattern"@, ""@),
        r.glob@ == spec_str_arg(args@, "glob"@, "*"@),
{
    SearchArgs {
        path: str_arg(args, "path", "."),
        pattern: str_arg(args, "pattern", ""),
        glob: str_arg(args, "glob", "*"),
    }
}

/// The error `regex::Regex::new` reports for `pattern`, as text; `None` when it compiles.
pub uninterp spec fn spec_regex_error(pattern: Seq<char>) -> Option<Seq<char>>;

/// Does the regular expression `pattern` match somewhere in `text` (`Regex::is_match`)?
pub uninterp spec fn spec_regex_match(pattern: Seq<char>, text: Seq<char>) -> bool;

#[verifier::external_type_specification]
#[verifier::external_body]
pub struct ExRegex(regex::Regex);

/// A compiled regular expression with the pattern it was compiled from.
pub struct LinePattern {
    source: String,
    re: regex::Regex,
}

impl LinePattern {
    /// The pattern this was compiled from.
    pub closed spec fn source(&self) -> Seq<char> {
        self.source@
    }
}

/// Compiles `pattern` with `regex::Regex::new`; on failure returns the error's `Display`
/// text. Both outcomes depend on the pattern alone and are named by `spec_regex_error`.
#[verifier::external_body]
pub(crate) fn compile_pattern(pattern: &str) -> (r: Result<LinePattern, String>)
    ensures
        match r {
            Ok(p) => p.source() == pattern@ && spec_regex_error(pattern@) is None,
            Err(e) => spec_regex_error(pattern@) == Some(e@),
        },
{
    match regex::Regex::new(pattern) {
        Ok(re) => Ok(LinePattern { source: pattern.to_owned(), re }),
        Err(e) => Err(e.to_string()),
    }
}

/// `Regex::is_match` of the compiled pattern on `text`; named by `spec_regex_match`.
#[verifier::external_body]
pub(crate) fn pattern_matches(p: &LinePattern, text: &str) -> (b: bool)
    ensures
        b == spec_regex_match(p.source(), text@),
{
    p.re.is_match(text)
}

/// The error `search_files` answers for a pattern that does not compile.
pub fn invalid_regex_text(error: &str) -> (r: String)
    ensures
        r@ == "Invalid regex: "@ + error@,
{
    concat2("Invalid regex: ", error)
}

/// Compiles the pattern of `search_files`; when it does not compile, the answer is
/// `Invalid regex: ` and the compiler's error.
pub fn compile_search_pattern(pattern: &str) -> (r: Result<LinePattern, String>)
    ensures
        match r {
            Ok(p) => p.source() == pattern@ && spec_regex_error(pattern@) is None,
            Err(e) => spec_regex_error(pattern@) matches Some(m) && e@ == "Invalid regex: "@ + m,
        },
{
    match compile_pattern(pattern) {
        Ok(p) => Ok(p),
        Err(e) => Err(invalid_regex_text(e.as_str())),
    }
}

/// The most matches `search_files` reports.
pub const MAX_MATCHES: usize = 50;

/// The report lines of the matching lines of one file: `path:n: line`, `n` counted from 1.
pub open spec fn spec_file_matches(pattern: Seq<char>, path: Seq<char>, lines: Seq<Seq<char>>) -> Seq<Seq<char>>
    decreases lines.len(),
{
    if lines.len() == 0 {
        Seq::empty()
    } else {
        let prev = spec_file_matches(pattern, path, lines.drop_last());
        if spec_regex_match(pattern, lines.last()) {
            prev.push(path + ":"@ + spec_decimal(lines.len()) + ": "@ + lines.last())
        } else {
            prev
        }
    }
}

/// The matches `search_files` has collected, across the files it scanned.
pub struct SearchState {
    results: Vec<String>,
    truncated: bool,
}

impl SearchState {
    /// The report lines so far.
    pub closed spec fn results(&self) -> Seq<Seq<char>> {
        texts(self.results@)
    }

    /// Did the matches reach the limit?
    pub closed spec fn truncated(&self) -> bool {
        self.truncated
    }

    /// Nothing found yet.
    pub fn new() -> (s: SearchState)
        ensures
            s.results() == Seq::<Seq<char>>::empty(),
            !s.truncated(),
    {
        let s = SearchState { results: Vec::new(), truncated: false };
        assert(s.results() =~= Seq::<Seq<char>>::empty());
        s
    }

    /// Scans one file's content, in order of its lines. The matches are appended until
    /// there are `MAX_MATCHES` of them; then the scan stops and `true` is returned.
    pub fn scan_file(&mut self, pattern: &LinePattern, path: &str, content: &str) -> (stop: bool)
        requires
            !old(self).truncated(),
            old(self).results().len() < MAX_MATCHES,
        ensures
            stop == final(self).truncated(),
            stop == (old(self).results().len() + spec_file_matches(pattern.source(), path@, spec_lines(content@)).len()
                >= MAX_MATCHES),
            final(self).results() == (old(self).results() + spec_file_matches(
                pattern.source(),
                path@,
                spec_lines(content@),
            )).take(if stop { MAX_MATCHES as int } else { (old(self).results().len() + spec_file_matches(
                pattern.source(),
                path@,
                spec_lines(content@),
            ).len()) as int }),
    {
        let chars = to_chars(content);
        let lines = lines_of(chars.as_slice());
        let ghost ls = texts(lines@);
        let ghost start = self.results();
        let ghost all = spec_file_matches(pattern.source(), path@, ls);
        let mut i: usize = 0;
        let mut stop = false;
        assert(ls.subrange(0, 0) =~= Seq::<Seq<char>>::empty());
        assert(self.results() =~= start + spec_file_matches(pattern.source(), path@, ls.subrange(0, 0)));
        while i < lines.len() && !stop
            invariant
                i <= lines@.len(),
                ls == texts(lines@),
                ls == spec_lines(content@),
                all == spec_file_matches(pattern.source(), path@, ls),
                start.len() < MAX_MATCHES,
                stop == self.truncated,
                !stop ==> self.results() == start + spec_file_matches(pattern.source(), path@, ls.subrange(0, i as int)),
                !stop ==> self.results().len() < MAX_MATCHES,
                stop ==> self.results() == (start + all).take(MAX_MATCHES as int),
                stop ==> start.len() + all.len() >= MAX_MATCHES,
            decreases lines.len() - i,
        {
            let ghost sub = ls.subrange(0, i + 1);
            assert(sub.drop_last() =~= ls.subrange(0, i as int));
            assert(sub.last() == lines@[i as int]@);
            if pattern_matches(pattern, lines[i].as_str()) {
                let number = u64_to_string((i + 1) as u64);
                let head = concat3(path, ":", number.as_str());
                let mid = concat2(head.as_str(), ": ");
                let line = concat2(mid.as_str(), lines[i].as_str());
                let ghost before = self.results@;
                self.results.push(line);
                assert(self.results() =~= texts(before).push(line@));
                assert(self.results() =~= start + spec_file_matches(pattern.source(), path@, sub));
                if self.results.len() >= MAX_MATCHES {
                    self.truncated = true;
                    stop = true;
                    proof {
                        lemma_file_matches_prefix(pattern.source(), path@, ls, i + 1);
                        let pm = spec_file_matches(pattern.source(), path@, sub);
                        assert(pm == all.take(pm.len() as int));
                        assert(start.len() + pm.len() == MAX_MATCHES);
                        assert((start + all).take(MAX_MATCHES as int) =~= start + pm);
                    }
                }
            } else {
                assert(spec_file_matches(pattern.source(), path@, sub) == spec_file_matches(
                    pattern.source(),
                    path@,
                    ls.subrange(0, i as int),
                ));
            }
            i += 1;
        }
        if !stop {
            assert(ls.subrange(0, i as int) =~= ls);
            assert(self.results() =~= (start + all).take((start.len() + all.len()) as int));
        }
        stop
    }

    /// The answer of `search_files`: the matches one per line, followed by a note when
    /// the limit was reached; a note that nothing matched when there are none.
    pub fn report(&self) -> (r: String)
        ensures
            self.truncated() ==> r@ == spec_join(self.results(), "\n"@) + "\n... (truncated at 50 matches)"@,
            !self.truncated() && self.results().len() == 0 ==> r@ == "No matches found."@,
            !self.truncated() && self.results().len() > 0 ==> r@ == spec_join(self.results(), "\n"@),
    {
        if self.truncated {
            let body = join(&self.results, "\n");
            concat2(body.as_str(), "\n... (truncated at 50 matches)")
        } else if self.results.len() == 0 {
            "No matches found.".to_owned()
        } else {
            join(&self.results, "\n")
        }
    }
}

/// The matches of a longer run of lines extend those of its first part.
pub proof fn lemma_file_matches_prefix(pattern: Seq<char>, path: Seq<char>, lines: Seq<Seq<char>>, k: int)
    requires
        0 <= k <= lines.len(),
    ensures
        spec_file_matches(pattern, path, lines.subrange(0, k)).len() <= spec_file_matches(pattern, path, lines).len(),
        spec_file_matches(pattern, path, lines.subrange(0, k)) == spec_file_matches(pattern, path, lines).take(
            spec_file_matches(pattern, path, lines.subrange(0, k)).len() as int,
        ),
    decreases lines.len() - k,
{
    if k < lines.len() {
        lemma_file_matches_prefix(pattern, path, lines, k + 1);
        let a = lines.subrange(0, k);
        let b = lines.subrange(0, k + 1);
        assert(b.drop_last() =~= a);
        let fa = spec_file_matches(pattern, path, a);
        let fb = spec_file_matches(pattern, path, b);
        let fl = spec_file_matches(pattern, path, lines);
        assert(fb.take(fa.len() as int) =~= fa);
        assert(fl.take(fa.len() as int) =~= fb.take(fb.len() as int).take(fa.len() as int));
    } else {
        assert(lines.subrange(0, k) =~= lines);
        let fl = spec_file_matches(pattern, path, lines);
        assert(fl.take(fl.len() as int) =~= fl);
    }
}

} // verus!
