//! Skills: instructions loaded from `SKILL.md` files, selected by keyword and injected
//! before the user's message. Reading the files stays with the caller.

use vstd::prelude::*;
use crate::message::{Message, MessageView, Role, views};
use crate::text::{
    concat2, concat3, find_chars, from_chars, join, lines_of, spec_contains, spec_find, spec_join,
    spec_lines, spec_split_char, spec_starts_with, spec_trim, spec_trim_char, split_char,
    starts_with, sub_chars, texts, to_chars, trim_char, trim_chars, contains_str,
};

verus! {

/// A skill.
#[derive(Debug, Clone)]
pub struct Skill {
    pub name: String,
    pub description: String,
    /// The body of the file: the instructions.
    pub instructions: String,
    /// Keywords that suggest the skill.
    pub read_when: Vec<String>,
    pub metadata: Option<String>,
    pub allowed_tools: Option<String>,
}

/// The fields read from a front matter so far.
pub struct FrontMatter {
    pub name: Seq<char>,
    pub description: Seq<char>,
    pub read_when: Seq<Seq<char>>,
    pub metadata: Option<Seq<char>>,
    pub allowed_tools: Option<Seq<char>>,
}

/// A value with surrounding white space and then surrounding quotes removed.
pub open spec fn spec_clean(v: Seq<char>) -> Seq<char> {
    spec_trim_char(spec_trim(v), '"')
}

/// The non-empty cleaned pieces.
pub open spec fn spec_keywords(pieces: Seq<Seq<char>>) -> Seq<Seq<char>>
    decreases pieces.len(),
{
    if pieces.len() == 0 {
        Seq::empty()
    } else {
        let prev = spec_keywords(pieces.drop_last());
        let c = spec_clean(pieces.last());
        if c.len() == 0 {
            prev
        } else {
            prev.push(c)
        }
    }
}

/// The front matter after one more line: a `key:` prefix on the trimmed line sets that
/// field; the first matching key of `name`, `description`, `read_when`, `metadata`,
/// `allowed_tools` wins; other lines change nothing.
pub open spec fn spec_front_line(f: FrontMatter, line: Seq<char>) -> FrontMatter {
    let t = spec_trim(line);
    if spec_starts_with(t, "name:"@) {
        FrontMatter { name: spec_clean(t.skip(5)), ..f }
    } else if spec_starts_with(t, "description:"@) {
        FrontMatter { description: spec_clean(t.skip(12)), ..f }
    } else if spec_starts_with(t, "read_when:"@) {
        FrontMatter { read_when: spec_keywords(spec_split_char(t.skip(10), ',')), ..f }
    } else if spec_starts_with(t, "metadata:"@) {
        FrontMatter { metadata: Some(spec_clean(t.skip(9))), ..f }
    } else if spec_starts_with(t, "allowed_tools:"@) {
        FrontMatter { allowed_tools: Some(spec_clean(t.skip(14))), ..f }
    } else {
        f
    }
}

/// The fields of a front matter given its lines.
pub open spec fn spec_front(lines: Seq<Seq<char>>) -> FrontMatter
    decreases lines.len(),
{
    if lines.len() == 0 {
        FrontMatter { name: Seq::empty(), description: Seq::empty(), read_when: Seq::empty(), metadata: None, allowed_tools: None }
    } else {
        spec_front_line(spec_front(lines.drop_last()), lines.last())
    }
}

/// The text of an optional string.
pub open spec fn opt_view(o: Option<String>) -> Option<Seq<char>> {
    match o {
        Some(s) => Some(s@),
        None => None,
    }
}

/// `s` is the skill described by front matter `f` and instructions `body`.
pub open spec fn spec_skill_is(s: Skill, f: FrontMatter, body: Seq<char>) -> bool {
    &&& s.name@ == f.name
    &&& s.description@ == f.description
    &&& s.instructions@ == body
    &&& texts(s.read_when@) == f.read_when
    &&& opt_view(s.metadata) == f.metadata
    &&& opt_view(s.allowed_tools) == f.allowed_tools
}

/// Where a `SKILL.md` text splits: the front matter between a leading `---` and the next
/// `---`, and the trimmed rest as instructions.
pub open spec fn spec_split_skill(content: Seq<char>) -> Option<(Seq<char>, Seq<char>)> {
    if !spec_starts_with(content, "---"@) {
        None
    } else {
        let rest = content.skip(3);
        match spec_find(rest, "---"@) {
            Some(end) => Some((rest.subrange(0, end), spec_trim(rest.skip(end + 3)))),
            None => None,
        }
    }
}

/// Cleans a value.
fn clean(v: &[char]) -> (r: Vec<char>)
    ensures
        r@ == spec_clean(v@),
{
    let t = trim_chars(v);
    trim_char(t.as_slice(), '"')
}

fn keywords(v: &[char]) -> (r: Vec<String>)
    ensures
        texts(r@) == spec_keywords(spec_split_char(v@, ',')),
{
    let pieces = split_char(v, ',');
    let ghost ps = texts(pieces@);
    let mut r: Vec<String> = Vec::new();
    let mut i: usize = 0;
    while i < pieces.len()
        invariant
            i <= pieces@.len(),
            ps == texts(pieces@),
            texts(r@) == spec_keywords(ps.subrange(0, i as int)),
        decreases pieces.len() - i,
    {
        let pc = to_chars(pieces[i].as_str());
        let c = clean(pc.as_slice());
        let ghost sub = ps.subrange(0, i + 1);
        assert(sub.drop_last() =~= ps.subrange(0, i as int));
        assert(sub.last() == pieces@[i as int]@);
        if c.len() > 0 {
            let ghost before = r@;
            r.push(from_chars(c.as_slice()));
            assert(texts(r@) =~= texts(before).push(c@));
        }
        i += 1;
    }
    assert(ps.subrange(0, i as int) =~= ps);
    r
}

/// Parses a `SKILL.md` text: a front matter between `---` lines with `name`,
/// `description`, `read_when` (comma-separated), `metadata` and `allowed_tools`, then the
/// instructions. There is no skill without both `---` or without a name.
pub fn parse_skill_md(content: &str) -> (r: Option<Skill>)
    ensures
        match spec_split_skill(content@) {
            None => r is None,
            Some((front, body)) => {
                let f = spec_front(spec_lines(front));
                if f.name.len() == 0 {
                    r is None
                } else {
                    r matches Some(s) && spec_skill_is(s, f, body)
                }
            },
        },
{
    let cv = to_chars(content);
    let dashes = to_chars("---");
    proof {
        reveal_strlit("---");
    }
    if !starts_with(cv.as_slice(), dashes.as_slice()) {
        return None;
    }
    let rest = sub_chars(cv.as_slice(), 3, cv.len());
    assert(rest@ =~= content@.skip(3));
    let end = match find_chars(rest.as_slice(), dashes.as_slice()) {
        Some(e) => e,
        None => {
            return None;
        },
    };
    proof {
        crate::text::lemma_find_from(rest@, dashes@, 0);
    }
    let front = sub_chars(rest.as_slice(), 0, end);
    let after = sub_chars(rest.as_slice(), end + 3, rest.len());
    assert(after@ =~= rest@.skip(end + 3));
    let body = trim_chars(after.as_slice());
    let lines = lines_of(front.as_slice());
    let ghost ls = texts(lines@);
    let mut name: Vec<char> = Vec::new();
    let mut description: Vec<char> = Vec::new();
    let mut read_when: Vec<String> = Vec::new();
    let mut metadata: Option<Vec<char>> = None;
    let mut allowed_tools: Option<Vec<char>> = None;
    let p_name = to_chars("name:");
    let p_desc = to_chars("description:");
    let p_read = to_chars("read_when:");
    let p_meta = to_chars("metadata:");
    let p_tools = to_chars("allowed_tools:");
    proof {
        reveal_strlit("name:");
        reveal_strlit("description:");
        reveal_strlit("read_when:");
        reveal_strlit("metadata:");
        reveal_strlit("allowed_tools:");
    }
    let mut i: usize = 0;
    while i < lines.len()
        invariant
            i <= lines@.len(),
            ls == texts(lines@),
            p_name@ == "name:"@,
            p_desc@ == "description:"@,
            p_read@ == "read_when:"@,
            p_meta@ == "metadata:"@,
            p_tools@ == "allowed_tools:"@,
            ({
                let f = spec_front(ls.subrange(0, i as int));
                &&& name@ == f.name
                &&& description@ == f.description
                &&& texts(read_when@) == f.read_when
                &&& match metadata {
                    Some(m) => f.metadata == Some(m@),
                    None => f.metadata is None,
                }
                &&& match allowed_tools {
                    Some(m) => f.allowed_tools == Some(m@),
                    None => f.allowed_tools is None,
                }
            }),
        decreases lines.len() - i,
    {
        let lc = to_chars(lines[i].as_str());
        let t = trim_chars(lc.as_slice());
        proof {
            reveal_strlit("name:");
            reveal_strlit("description:");
            reveal_strlit("read_when:");
            reveal_strlit("metadata:");
            reveal_strlit("allowed_tools:");
        }
        let ghost sub = ls.subrange(0, i + 1);
        assert(sub.drop_last() =~= ls.subrange(0, i as int));
        assert(sub.last() == lines@[i as int]@);
        if starts_with(t.as_slice(), p_name.as_slice()) {
            let v = sub_chars(t.as_slice(), 5, t.len());
            assert(v@ =~= t@.skip(5));
            name = clean(v.as_slice());
        } else if starts_with(t.as_slice(), p_desc.as_slice()) {
            let v = sub_chars(t.as_slice(), 12, t.len());
            assert(v@ =~= t@.skip(12));
            description = clean(v.as_slice());
        } else if starts_with(t.as_slice(), p_read.as_slice()) {
            let v = sub_chars(t.as_slice(), 10, t.len());
            assert(v@ =~= t@.skip(10));
            read_when = keywords(v.as_slice());
        } else if starts_with(t.as_slice(), p_meta.as_slice()) {
            let v = sub_chars(t.as_slice(), 9, t.len());
            assert(v@ =~= t@.skip(9));
            metadata = Some(clean(v.as_slice()));
        } else if starts_with(t.as_slice(), p_tools.as_slice()) {
            let v = sub_chars(t.as_slice(), 14, t.len());
            assert(v@ =~= t@.skip(14));
            allowed_tools = Some(clean(v.as_slice()));
        }
        i += 1;
    }
    assert(ls.subrange(0, i as int) =~= ls);
    if name.len() == 0 {
        return None;
    }
    let metadata_s = match &metadata {
        Some(m) => Some(from_chars(m.as_slice())),
        None => None,
    };
    let tools_s = match &allowed_tools {
        Some(m) => Some(from_chars(m.as_slice())),
        None => None,
    };
    Some(Skill {
        name: from_chars(name.as_slice()),
        description: from_chars(description.as_slice()),
        instructions: from_chars(body.as_slice()),
        read_when,
        metadata: metadata_s,
        allowed_tools: tools_s,
    })
}

/// The lower-case form of `s` (`str::to_lowercase`).
pub uninterp spec fn spec_lowercase(s: Seq<char>) -> Seq<char>;

/// `str::to_lowercase`: Unicode lower-case mapping, named by `spec_lowercase`.
#[verifier::external_body]
pub(crate) fn to_lowercase(s: &str) -> (r: String)
    ensures
        r@ == spec_lowercase(s@),
{
    s.to_lowercase()
}

/// Does the skill match the query: its name, description or one of its keywords
/// contains the query, all compared in lower case?
pub open spec fn spec_skill_matches(s: Skill, query: Seq<char>) -> bool {
    let q = spec_lowercase(query);
    ||| spec_contains(spec_lowercase(s.name@), q)
    ||| spec_contains(spec_lowercase(s.description@), q)
    ||| exists|k: int| 0 <= k < s.read_when@.len() && spec_contains(spec_lowercase(#[trigger] s.read_when@[k]@), q)
}

/// The matching skills, in order.
pub open spec fn spec_matching(skills: Seq<Skill>, query: Seq<char>) -> Seq<Skill>
    decreases skills.len(),
{
    if skills.len() == 0 {
        Seq::empty()
    } else {
        let prev = spec_matching(skills.drop_last(), query);
        if spec_skill_matches(skills.last(), query) {
            prev.push(skills.last())
        } else {
            prev
        }
    }
}

/// One skill as injected: `## Skill: name`, the description, then the instructions.
pub open spec fn spec_skill_block(s: Skill) -> Seq<char> {
    "## Skill: "@ + s.name@ + "\n"@ + s.description@ + "\n\n"@ + s.instructions@
}

/// The injected text for the matching skills, when there are any.
pub open spec fn spec_skill_prompt(matching: Seq<Skill>) -> Option<Seq<char>> {
    if matching.len() == 0 {
        None
    } else {
        Some(
            "<available-skills>\n"@ + spec_join(matching.map_values(|s: Skill| spec_skill_block(s)), "\n\n---\n\n"@)
                + "\n</available-skills>"@,
        )
    }
}

/// The skills of a workspace.
pub struct SkillManager {
    skills: Vec<Skill>,
}

impl SkillManager {
    /// The loaded skills.
    pub closed spec fn spec_skills(&self) -> Seq<Skill> {
        self.skills@
    }

    /// A manager for skills that were loaded already.
    pub fn from_skills(skills: Vec<Skill>) -> (m: SkillManager)
        ensures
            m.spec_skills() == skills@,
    {
        SkillManager { skills }
    }

    /// The loaded skills.
    pub fn skills(&self) -> (s: &[Skill])
        ensures
            s@ == self.spec_skills(),
    {
        self.skills.as_slice()
    }

    fn skill_matches(s: &Skill, q: &str) -> (b: bool)
        ensures
            b == ({
                let ql = q@;
                ||| spec_contains(spec_lowercase(s.name@), ql)
                ||| spec_contains(spec_lowercase(s.description@), ql)
                ||| exists|k: int| 0 <= k < s.read_when@.len() && spec_contains(
                    spec_lowercase(#[trigger] s.read_when@[k]@),
                    ql,
                )
            }),
    {
        let n = to_lowercase(s.name.as_str());
        if contains_str(n.as_str(), q) {
            return true;
        }
        let d = to_lowercase(s.description.as_str());
        if contains_str(d.as_str(), q) {
            return true;
        }
        let mut k: usize = 0;
        while k < s.read_when.len()
            invariant
                k <= s.read_when@.len(),
                forall|j: int| 0 <= j < k ==> !spec_contains(spec_lowercase(#[trigger] s.read_when@[j]@), q@),
            decreases s.read_when.len() - k,
        {
            let t = to_lowercase(s.read_when[k].as_str());
            if contains_str(t.as_str(), q) {
                return true;
            }
            k += 1;
        }
        false
    }

    /// The skills that match the query, in order.
    pub fn find_matching(&self, query: &str) -> (r: Vec<&Skill>)
        ensures
            r@.len() == spec_matching(self.spec_skills(), query@).len(),
            forall|i: int| 0 <= i < r@.len() ==> *r@[i] == spec_matching(self.spec_skills(), query@)[i],
    {
        let q = to_lowercase(query);
        let mut r: Vec<&Skill> = Vec::new();
        let mut i: usize = 0;
        while i < self.skills.len()
            invariant
                i <= self.skills@.len(),
                q@ == spec_lowercase(query@),
                r@.len() == spec_matching(self.skills@.subrange(0, i as int), query@).len(),
                forall|j: int| 0 <= j < r@.len() ==> *r@[j] == spec_matching(self.skills@.subrange(0, i as int), query@)[j],
            decreases self.skills.len() - i,
        {
            let ghost sub = self.skills@.subrange(0, i + 1);
            assert(sub.drop_last() =~= self.skills@.subrange(0, i as int));
            assert(sub.last() == self.skills@[i as int]);
            if SkillManager::skill_matches(&self.skills[i], q.as_str()) {
                r.push(&self.skills[i]);
            }
            i += 1;
        }
        assert(self.skills@.subrange(0, i as int) =~= self.skills@);
        r
    }

    /// The text that presents the matching skills, or `None` when none matches.
    pub fn format_for_prompt(&self, query: &str) -> (r: Option<String>)
        ensures
            match spec_skill_prompt(spec_matching(self.spec_skills(), query@)) {
                Some(t) => r matches Some(x) && x@ == t,
                None => r is None,
            },
    {
        let matching = self.find_matching(query);
        let ghost ms = spec_matching(self.spec_skills(), query@);
        if matching.len() == 0 {
            return None;
        }
        let ghost target = ms.map_values(|s: Skill| spec_skill_block(s));
        let mut blocks: Vec<String> = Vec::new();
        let mut i: usize = 0;
        while i < matching.len()
            invariant
                i <= matching@.len(),
                matching@.len() == ms.len(),
                forall|j: int| 0 <= j < matching@.len() ==> *matching@[j] == ms[j],
                target == ms.map_values(|s: Skill| spec_skill_block(s)),
                texts(blocks@) == target.subrange(0, i as int),
            decreases matching.len() - i,
        {
            let s = matching[i];
            let a = concat3("## Skill: ", s.name.as_str(), "\n");
            let b = concat3(a.as_str(), s.description.as_str(), "\n\n");
            let block = concat2(b.as_str(), s.instructions.as_str());
            let ghost before = blocks@;
            blocks.push(block);
            assert(texts(blocks@) =~= texts(before).push(block@));
            assert(target.subrange(0, i + 1) =~= target.subrange(0, i as int).push(target[i as int]));
            i += 1;
        }
        assert(target.subrange(0, i as int) =~= target);
        let joined = join(&blocks, "\n\n---\n\n");
        Some(concat3("<available-skills>\n", joined.as_str(), "\n</available-skills>"))
    }
}

/// The text of the last user message, empty when there is none.
pub open spec fn spec_last_user_query(msgs: Seq<MessageView>) -> Seq<char>
    decreases msgs.len(),
{
    if msgs.len() == 0 {
        Seq::empty()
    } else if msgs.last().role == Role::User {
        msgs.last().content
    } else {
        spec_last_user_query(msgs.drop_last())
    }
}

/// The text of the last user message, empty when there is none.
pub fn last_user_query(messages: &Vec<Message>) -> (q: String)
    ensures
        q@ == spec_last_user_query(views(messages@)),
{
    let ghost mv = views(messages@);
    let mut i = messages.len();
    assert(mv.subrange(0, i as int) =~= mv);
    while i > 0
        invariant
            i <= messages@.len(),
            mv == views(messages@),
            spec_last_user_query(mv) == spec_last_user_query(mv.subrange(0, i as int)),
        decreases i,
    {
        let ghost sub = mv.subrange(0, i as int);
        assert(sub.drop_last() =~= mv.subrange(0, i - 1));
        assert(sub.last() == messages@[i - 1]@);
        if messages[i - 1].role == Role::User {
            return messages[i - 1].content.clone();
        }
        i -= 1;
    }
    String::new()
}

/// Position of the first user message.
pub open spec fn spec_first_user(msgs: Seq<MessageView>) -> Option<int>
    decreases msgs.len(),
{
    if msgs.len() == 0 {
        None
    } else if msgs[0].role == Role::User {
        Some(0)
    } else {
        match spec_first_user(msgs.drop_first()) {
            Some(k) => Some(k + 1),
            None => None,
        }
    }
}

/// The messages with a system message holding `text` inserted before the first user
/// message; unchanged when there is no user message.
pub open spec fn spec_inject(msgs: Seq<MessageView>, text: Seq<char>) -> Seq<MessageView> {
    match spec_first_user(msgs) {
        Some(k) => msgs.insert(k, MessageView::plain(Role::System, text)),
        None => msgs,
    }
}

/// Inserts a system message holding `text` before the first user message.
pub fn inject_before_first_user(messages: &mut Vec<Message>, text: &str)
    ensures
        views(final(messages)@) == spec_inject(views(old(messages)@), text@),
{
    let ghost mv = views(messages@);
    let mut i: usize = 0;
    assert(mv.skip(0) =~= mv);
    while i < messages.len()
        invariant
            i <= messages@.len(),
            mv == views(messages@),
            messages@ == old(messages)@,
            spec_first_user(mv) == match spec_first_user(mv.skip(i as int)) {
                Some(k) => Some(k + i),
                None => None,
            },
        decreases messages.len() - i,
    {
        assert(mv.skip(i as int)[0] == messages@[i as int]@);
        if messages[i].role == Role::User {
            let m = Message::system(text);
            messages.insert(i, m);
            assert(views(messages@) =~= mv.insert(i as int, MessageView::plain(Role::System, text@)));
            return;
        }
        assert(mv.skip(i as int).drop_first() =~= mv.skip(i + 1));
        i += 1;
    }
}

/// Law: presenting the skills matching a query after one more skill is added: a skill
/// that does not match changes nothing; a matching one adds its own block,
/// `## Skill: name`, the description and the instructions, after those already presented
/// (separated by a `---` line), or is presented alone when it is the first to match.
/// No skill matching means nothing is presented.
pub proof fn lemma_skill_prompt_extends(skills: Seq<Skill>, s: Skill, query: Seq<char>)
    ensures
        spec_skill_prompt(spec_matching(Seq::<Skill>::empty(), query)) is None,
        !spec_skill_matches(s, query) ==> spec_skill_prompt(spec_matching(skills.push(s), query)) == spec_skill_prompt(
            spec_matching(skills, query),
        ),
        spec_skill_matches(s, query) ==> spec_skill_prompt(spec_matching(skills.push(s), query)) == Some(
            match spec_skill_prompt(spec_matching(skills, query)) {
                None => "<available-skills>\n"@ + ("## Skill: "@ + s.name@ + "\n"@ + s.description@ + "\n\n"@
                    + s.instructions@) + "\n</available-skills>"@,
                Some(t) => t.subrange(0, t.len() - "\n</available-skills>"@.len()) + "\n\n---\n\n"@ + ("## Skill: "@
                    + s.name@ + "\n"@ + s.description@ + "\n\n"@ + s.instructions@) + "\n</available-skills>"@,
            },
        ),
{
    let pushed = skills.push(s);
    assert(pushed.drop_last() =~= skills);
    assert(pushed.last() == s);
    let prev = spec_matching(skills, query);
    if spec_skill_matches(s, query) {
        let cur = prev.push(s);
        let f = |k: Skill| spec_skill_block(k);
        assert(cur.map_values(f) =~= prev.map_values(f).push(spec_skill_block(s)));
        assert(cur.map_values(f).drop_last() =~= prev.map_values(f));
        if prev.len() > 0 {
            let head = "<available-skills>\n"@ + spec_join(prev.map_values(f), "\n\n---\n\n"@);
            let t = head + "\n</available-skills>"@;
            assert(t.subrange(0, t.len() - "\n</available-skills>"@.len()) =~= head);
        }
    }
}

} // verus!
