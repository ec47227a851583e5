//! Skills: markdown files with a frontmatter that names a capability and its
//! arguments, and a body with `{{argument}}` placeholders.

use vstd::prelude::*;
use crate::json::{close, object, object_of, put, text_value, Json, JsonView};
use crate::table::Table;
use crate::text::{
    cat, chars_of, dup_opt, is_blank, replace, same, split_char, split_lines, split_once,
    split_once_char, starts_with, string_of, strip_prefix, trim, trim_end, trim_start,
    trim_start_matches,
};

verus! {

// ---- the model -------------------------------------------------------------------

/// A declared argument of a skill.
#[derive(Debug)]
pub struct SkillArg {
    pub name: String,
    pub description: Option<String>,
    pub required: Option<bool>,
}

/// The frontmatter of a skill.
#[derive(Debug)]
pub struct SkillMeta {
    pub name: String,
    pub description: Option<String>,
    pub arguments: Vec<SkillArg>,
}

/// A skill.
#[derive(Debug)]
pub struct Skill {
    pub name: String,
    pub description: Option<String>,
    /// The body, with placeholders.
    pub body: String,
    pub arguments: Vec<SkillArg>,
    /// The file that it comes from.
    pub source: Option<String>,
}

/// What an argument says.
pub struct ArgView {
    pub name: Seq<char>,
    pub description: Option<Seq<char>>,
    pub required: Option<bool>,
}

/// What a frontmatter says.
pub struct MetaView {
    pub name: Seq<char>,
    pub description: Option<Seq<char>>,
    pub arguments: Seq<ArgView>,
}

/// What a skill says.
pub struct SkillView {
    pub name: Seq<char>,
    pub description: Option<Seq<char>>,
    pub body: Seq<char>,
    pub arguments: Seq<ArgView>,
    pub source: Option<Seq<char>>,
}

impl View for SkillArg {
    type V = ArgView;

    open spec fn view(&self) -> ArgView {
        ArgView {
            name: self.name@,
            description: crate::text::opt_view(self.description),
            required: self.required,
        }
    }
}

/// What a list of arguments says.
pub open spec fn arg_views(v: Seq<SkillArg>) -> Seq<ArgView> {
    v.map_values(|a: SkillArg| a@)
}

impl View for SkillMeta {
    type V = MetaView;

    open spec fn view(&self) -> MetaView {
        MetaView {
            name: self.name@,
            description: crate::text::opt_view(self.description),
            arguments: arg_views(self.arguments@),
        }
    }
}

impl View for Skill {
    type V = SkillView;

    open spec fn view(&self) -> SkillView {
        SkillView {
            name: self.name@,
            description: crate::text::opt_view(self.description),
            body: self.body@,
            arguments: arg_views(self.arguments@),
            source: crate::text::opt_view(self.source),
        }
    }
}

/// What a list of skills says.
pub open spec fn skill_views(v: Seq<Skill>) -> Seq<SkillView> {
    v.map_values(|s: Skill| s@)
}

impl Default for SkillMeta {
    fn default() -> (r: Self)
        ensures
            r@ == no_meta(),
    {
        let r: SkillMeta = SkillMeta {
            name: String::new(),
            description: None,
            arguments: Vec::new(),
        };
        assert(arg_views(r.arguments@) =~= Seq::<ArgView>::empty());
        r
    }
}

// ---- the frontmatter ---------------------------------------------------------------

/// A frontmatter that says nothing.
pub open spec fn no_meta() -> MetaView {
    MetaView { name: Seq::empty(), description: None, arguments: Seq::empty() }
}

/// An argument that says nothing.
pub open spec fn no_arg() -> ArgView {
    ArgView { name: Seq::empty(), description: None, required: None }
}

/// A text without the white space and the one pair of quotes around it.
pub open spec fn unquoted(s: Seq<char>) -> Seq<char> {
    let t = crate::text::trimmed(s);
    if t.len() >= 2 && ((t[0] == '"' && t.last() == '"') || (t[0] == '\'' && t.last() == '\'')) {
        t.subrange(1, t.len() - 1)
    } else {
        t
    }
}

/// An argument with one of its keys set; other keys change nothing.
pub open spec fn arg_with(a: ArgView, key: Seq<char>, value: Seq<char>) -> ArgView {
    let v = unquoted(crate::text::trimmed(value));
    if crate::text::trimmed(key) == "name"@ {
        ArgView { name: v, ..a }
    } else if crate::text::trimmed(key) == "description"@ {
        ArgView { description: Some(v), ..a }
    } else if crate::text::trimmed(key) == "required"@ {
        ArgView { required: Some(v == "true"@ || v == "yes"@ || v == "1"@), ..a }
    } else {
        a
    }
}

/// An argument with one inline field: `key: value`, or a bare name.
pub open spec fn arg_with_field(a: ArgView, field: Seq<char>) -> ArgView {
    match crate::text::split_at_char(field, ':') {
        Some(p) => arg_with(a, p.0, p.1),
        None => if a.name.len() == 0 {
            ArgView { name: unquoted(crate::text::trimmed(field)), ..a }
        } else {
            a
        },
    }
}

/// The argument of the first `k` inline fields.
pub open spec fn arg_of_fields(fields: Seq<Seq<char>>, k: int) -> ArgView
    decreases k,
{
    if k <= 0 {
        no_arg()
    } else {
        arg_with_field(arg_of_fields(fields, k - 1), fields[k - 1])
    }
}

/// A line that starts an item of a list.
pub open spec fn is_item(line: Seq<char>) -> bool {
    crate::text::begins(crate::text::trim_start_of(line), "- "@)
}

/// A line that continues an item: indented, not blank and not an item itself.
pub open spec fn is_continuation(line: Seq<char>) -> bool {
    &&& line.len() > 0 && (line[0] == ' ' || line[0] == '\t')
    &&& !is_item(line)
    &&& crate::text::trim_start_of(line).len() > 0
}

/// The argument of an item line.
pub open spec fn arg_of_item(line: Seq<char>) -> ArgView {
    let body = crate::text::trim_start_of(crate::text::trim_start_of(line).skip(2));
    let fields = crate::text::parts(body, ',');
    arg_of_fields(fields, fields.len() as int)
}

/// An argument with a continuation line.
pub open spec fn arg_with_line(a: ArgView, line: Seq<char>) -> ArgView {
    match crate::text::split_at_char(crate::text::trimmed(line), ':') {
        Some(p) => arg_with(a, p.0, p.1),
        None => a,
    }
}

/// An argument with the continuation lines from `i` on, and the first line that
/// is none.
pub open spec fn continued(lines: Seq<Seq<char>>, i: int, a: ArgView) -> (ArgView, int)
    decreases lines.len() - i,
{
    if 0 <= i < lines.len() && is_continuation(lines[i]) {
        continued(lines, i + 1, arg_with_line(a, lines[i]))
    } else {
        (a, i)
    }
}

/// The arguments with those of the items from line `i` on, and the first line
/// behind them. An item without a name counts for nothing.
pub open spec fn items_of(lines: Seq<Seq<char>>, i: int, args: Seq<ArgView>) -> (Seq<ArgView>, int)
    decreases lines.len() - i,
{
    if 0 <= i < lines.len() && is_item(lines[i]) {
        proof {
            lemma_continued_advances(lines, i + 1, arg_of_item(lines[i]));
        }
        let c = continued(lines, i + 1, arg_of_item(lines[i]));
        items_of(lines, c.1, if c.0.name.len() > 0 { args.push(c.0) } else { args })
    } else {
        (args, i)
    }
}

/// Continuation lines are passed over.
pub proof fn lemma_continued_advances(lines: Seq<Seq<char>>, i: int, a: ArgView)
    ensures
        continued(lines, i, a).1 >= i,
        i <= lines.len() ==> continued(lines, i, a).1 <= lines.len(),
    decreases lines.len() - i,
{
    if 0 <= i < lines.len() && is_continuation(lines[i]) {
        lemma_continued_advances(lines, i + 1, arg_with_line(a, lines[i]));
    }
}

/// Items are passed over.
pub proof fn lemma_items_advance(lines: Seq<Seq<char>>, i: int, args: Seq<ArgView>)
    ensures
        items_of(lines, i, args).1 >= i,
        i <= lines.len() ==> items_of(lines, i, args).1 <= lines.len(),
    decreases lines.len() - i,
{
    if 0 <= i < lines.len() && is_item(lines[i]) {
        lemma_continued_advances(lines, i + 1, arg_of_item(lines[i]));
        let c = continued(lines, i + 1, arg_of_item(lines[i]));
        lemma_items_advance(lines, c.1, if c.0.name.len() > 0 { args.push(c.0) } else { args });
    }
}

/// A line of the frontmatter that sets nothing: blank, a comment, or without a
/// colon.
pub open spec fn is_idle(line: Seq<char>) -> bool {
    let l = crate::text::trim_end_of(line);
    let t = crate::text::trim_start_of(l);
    l.len() == 0 || (t.len() > 0 && t[0] == '#') || crate::text::split_at_char(l, ':') is None
}

/// The frontmatter with the lines from `i` on.
pub open spec fn meta_of(lines: Seq<Seq<char>>, i: int, m: MetaView) -> MetaView
    decreases lines.len() - i,
{
    if !(0 <= i < lines.len()) {
        m
    } else if is_idle(lines[i]) {
        meta_of(lines, i + 1, m)
    } else {
        let p = crate::text::split_at_char(crate::text::trim_end_of(lines[i]), ':')->Some_0;
        let key = crate::text::trimmed(p.0);
        let val = unquoted(crate::text::trimmed(p.1));
        if key == "name"@ {
            meta_of(lines, i + 1, MetaView { name: val, ..m })
        } else if key == "description"@ {
            meta_of(lines, i + 1, MetaView { description: Some(val), ..m })
        } else if key == "arguments"@ {
            proof {
                lemma_items_advance(lines, i + 1, m.arguments);
            }
            let r = items_of(lines, i + 1, m.arguments);
            meta_of(lines, r.1, MetaView { arguments: r.0, ..m })
        } else {
            meta_of(lines, i + 1, m)
        }
    }
}

/// A text without the white space and the one pair of quotes around it.
pub fn unquote(s: &str) -> (r: String)
    ensures
        r@ == unquoted(s@),
{
    let t: String = trim(s);
    let v: Vec<char> = chars_of(&t);
    let n: usize = v.len();
    if n >= 2 && ((v[0] == '"' && v[n - 1] == '"') || (v[0] == '\'' && v[n - 1] == '\'')) {
        string_of(v.as_slice(), 1, n - 1)
    } else {
        t
    }
}

fn set_key(a: &mut SkillArg, key: &str, value: &str)
    ensures
        final(a)@ == arg_with(old(a)@, key@, value@),
{
    let k: String = trim(key);
    let v: String = unquote(&trim(value));
    if same(&k, "name") {
        a.name = v;
    } else if same(&k, "description") {
        a.description = Some(v);
    } else if same(&k, "required") {
        a.required = Some(same(&v, "true") || same(&v, "yes") || same(&v, "1"));
    }
}

fn item_arg(line: &str) -> (r: SkillArg)
    requires
        is_item(line@),
    ensures
        r@ == arg_of_item(line@),
{
    let lead: String = trim_start(line);
    let rest: String = match strip_prefix(&lead, "- ") {
        Some(t) => t,
        None => String::new(),
    };
    proof {
        reveal_strlit("- ");
    }
    let body: String = trim_start(&rest);
    let fields: Vec<String> = split_char(&body, ',');
    let ghost all = crate::text::views(fields@);
    let mut a: SkillArg = SkillArg { name: String::new(), description: None, required: None };
    let mut i: usize = 0;
    assert(a@ == no_arg()) by {
        assert(a.name@ =~= Seq::<char>::empty());
    }
    while i < fields.len()
        invariant
            i <= fields@.len(),
            all == crate::text::views(fields@),
            a@ == arg_of_fields(all, i as int),
        decreases fields@.len() - i,
    {
        assert(all[i as int] == fields@[i as int]@);
        match split_once_char(&fields[i], ':') {
            Some((k, v)) => {
                set_key(&mut a, &k, &v);
            },
            None => {
                if a.name.as_str().is_empty() {
                    a.name = unquote(&trim(&fields[i]));
                }
            },
        }
        i = i + 1;
    }
    a
}

fn line_is_item(line: &str) -> (r: bool)
    ensures
        r == is_item(line@),
{
    starts_with(&trim_start(line), "- ")
}

fn line_continues(line: &str) -> (r: bool)
    ensures
        r == is_continuation(line@),
{
    let v: Vec<char> = chars_of(line);
    let lead: String = trim_start(line);
    v.len() > 0 && (v[0] == ' ' || v[0] == '\t') && !line_is_item(line)
        && !lead.as_str().is_empty()
}

fn items(lines: &Vec<String>, from: usize, args: &mut Vec<SkillArg>) -> (r: usize)
    requires
        from <= lines@.len(),
    ensures
        from <= r <= lines@.len(),
        items_of(crate::text::views(lines@), from as int, arg_views(old(args)@)) == (
            arg_views(final(args)@),
            r as int,
        ),
{
    let ghost all = crate::text::views(lines@);
    let ghost start = arg_views(args@);
    let mut i: usize = from;
    while i < lines.len() && line_is_item(&lines[i])
        invariant
            from <= i <= lines@.len(),
            all == crate::text::views(lines@),
            items_of(all, i as int, arg_views(args@)) == items_of(all, from as int, start),
        ensures
            from <= i <= lines@.len(),
            items_of(all, i as int, arg_views(args@)) == items_of(all, from as int, start),
            i == lines@.len() || !is_item(all[i as int]),
        decreases lines@.len() - i,
    {
        assert(all[i as int] == lines@[i as int]@);
        let ghost first = arg_of_item(all[i as int]);
        let mut a: SkillArg = item_arg(&lines[i]);
        let mut j: usize = i + 1;
        while j < lines.len() && line_continues(&lines[j])
            invariant
                i < j <= lines@.len(),
                all == crate::text::views(lines@),
                continued(all, j as int, a@) == continued(all, i + 1, first),
            ensures
                i < j <= lines@.len(),
                continued(all, j as int, a@) == continued(all, i + 1, first),
                j == lines@.len() || !is_continuation(all[j as int]),
            decreases lines@.len() - j,
        {
            assert(all[j as int] == lines@[j as int]@);
            if let Some((k, v)) = split_once_char(&trim(&lines[j]), ':') {
                set_key(&mut a, &k, &v);
            }
            j = j + 1;
        }
        assert(continued(all, i + 1, first) == (a@, j as int));
        let ghost before = args@;
        if !a.name.as_str().is_empty() {
            args.push(a);
            assert(arg_views(args@) =~= arg_views(before).push(a@));
        }
        i = j;
    }
    i
}

/// Parses the frontmatter: `key: value` lines, and a list of arguments.
pub fn serde_yamlish(fm: &str) -> (r: SkillMeta)
    ensures
        r@ == meta_of(crate::text::lines_of(fm@), 0, no_meta()),
{
    let lines: Vec<String> = split_lines(fm);
    let ghost all = crate::text::views(lines@);
    let mut meta: SkillMeta = SkillMeta::default();
    let mut i: usize = 0;
    while i < lines.len()
        invariant
            i <= lines@.len(),
            all == crate::text::views(lines@),
            meta_of(all, i as int, meta@) == meta_of(all, 0, no_meta()),
        decreases lines@.len() - i,
    {
        assert(all[i as int] == lines@[i as int]@);
        let line: String = trim_end(&lines[i]);
        let lead: String = trim_start(&line);
        if line.as_str().is_empty() || is_comment(&lead) {
            i = i + 1;
            continue;
        }
        match split_once_char(&line, ':') {
            None => {
                i = i + 1;
            },
            Some((k, v)) => {
                let key: String = trim(&k);
                let val: String = unquote(&trim(&v));
                if same(&key, "name") {
                    meta.name = val;
                    i = i + 1;
                } else if same(&key, "description") {
                    meta.description = Some(val);
                    i = i + 1;
                } else if same(&key, "arguments") {
                    i = items(&lines, i + 1, &mut meta.arguments);
                } else {
                    i = i + 1;
                }
            },
        }
    }
    meta
}

fn is_comment(lead: &str) -> (r: bool)
    ensures
        r == (lead@.len() > 0 && lead@[0] == '#'),
{
    let v: Vec<char> = chars_of(lead);
    v.len() > 0 && v[0] == '#'
}

// ---- skills ------------------------------------------------------------------------

/// The skill of a frontmatter and a body; one without a name is none.
pub open spec fn skill_from(m: MetaView, body: Seq<char>) -> Result<SkillView, Seq<char>> {
    if crate::text::trimmed(m.name).len() == 0 {
        Err("skill is missing a 'name' in its frontmatter"@)
    } else {
        Ok(
            SkillView {
                name: m.name,
                description: m.description,
                body,
                arguments: m.arguments,
                source: None,
            },
        )
    }
}

/// The skill of a markdown text: a frontmatter between `---` and a line that
/// starts with `---`, then the body.
pub open spec fn skill_of(text: Seq<char>) -> Result<SkillView, Seq<char>> {
    let t = crate::text::trim_start_of(crate::text::strip_leading(text, '\u{feff}'));
    if !crate::text::begins(t, "---"@) {
        Err("skill missing frontmatter (expected leading '---')"@)
    } else {
        match crate::text::split_at_text(t.skip("---"@.len() as int), "\n---"@) {
            None => Err("skill frontmatter missing closing '---'"@),
            Some(p) => skill_from(
                meta_of(
                    crate::text::lines_of(crate::text::strip_leading(p.0, '\n')),
                    0,
                    no_meta(),
                ),
                crate::text::strip_leading(p.1, '\n'),
            ),
        }
    }
}

/// A parsed skill agrees with its meaning.
pub open spec fn parses_to(r: Result<Skill, String>, s: Result<SkillView, Seq<char>>) -> bool {
    match r {
        Ok(k) => s == Ok::<SkillView, Seq<char>>(k@),
        Err(e) => s == Err::<SkillView, Seq<char>>(e@),
    }
}

/// The skill of a frontmatter and a body.
pub fn build_skill(meta: SkillMeta, body: &str) -> (r: Result<Skill, String>)
    ensures
        parses_to(r, skill_from(meta@, body@)),
{
    if is_blank(&meta.name) {
        return Err("skill is missing a 'name' in its frontmatter".to_string());
    }
    Ok(
        Skill {
            name: meta.name,
            description: meta.description,
            body: body.to_string(),
            arguments: meta.arguments,
            source: None,
        },
    )
}

/// Parses a skill from its markdown text.
pub fn parse_skill_str(text: &str) -> (r: Result<Skill, String>)
    ensures
        parses_to(r, skill_of(text@)),
{
    let t: String = trim_start(&trim_start_matches(text, '\u{feff}'));
    match strip_prefix(&t, "---") {
        None => Err("skill missing frontmatter (expected leading '---')".to_string()),
        Some(rest) => match split_once(&rest, "\n---") {
            None => Err("skill frontmatter missing closing '---'".to_string()),
            Some((fm, body)) => {
                let meta: SkillMeta = serde_yamlish(&trim_start_matches(&fm, '\n'));
                build_skill(meta, &trim_start_matches(&body, '\n'))
            },
        },
    }
}

/// The placeholder of an argument.
pub open spec fn placeholder(name: Seq<char>) -> Seq<char> {
    "{{"@ + name + "}}"@
}

/// The text that an argument gets; the empty text when it is not given as one.
pub open spec fn given(args: JsonView, name: Seq<char>) -> Seq<char> {
    match crate::json::text_field(args, name) {
        Some(s) => s,
        None => Seq::empty(),
    }
}

/// A body with the placeholders of the first `k` arguments filled in, one
/// argument after the other.
pub open spec fn filled(body: Seq<char>, a: Seq<ArgView>, args: JsonView, k: int) -> Seq<char>
    decreases k,
{
    if k <= 0 {
        body
    } else {
        crate::text::replaced(
            filled(body, a, args, k - 1),
            placeholder(a[k - 1].name),
            given(args, a[k - 1].name),
        )
    }
}

/// The schema of one argument.
pub open spec fn arg_schema(a: ArgView) -> JsonView {
    match a.description {
        Some(d) => JsonView::Object(
            seq![
                ("description"@, JsonView::Str(d)),
                ("type"@, JsonView::Str("string"@)),
            ],
        ),
        None => JsonView::Object(seq![("type"@, JsonView::Str("string"@))]),
    }
}

/// The schemas of arguments by name; of two with one name the last counts.
pub open spec fn arg_schemas(a: Seq<ArgView>) -> Map<Seq<char>, JsonView>
    decreases a.len(),
{
    if a.len() == 0 {
        Map::empty()
    } else {
        arg_schemas(a.drop_last()).insert(a.last().name, arg_schema(a.last()))
    }
}

/// The names of the required arguments.
pub open spec fn required_names(a: Seq<ArgView>) -> Seq<JsonView>
    decreases a.len(),
{
    if a.len() == 0 {
        Seq::empty()
    } else if a.last().required == Some(true) {
        required_names(a.drop_last()).push(JsonView::Str(a.last().name))
    } else {
        required_names(a.drop_last())
    }
}

/// The JSON Schema of a skill's arguments.
pub open spec fn schema_of(a: Seq<ArgView>) -> JsonView {
    JsonView::Object(
        seq![
            ("properties"@, crate::json::sorted_object(arg_schemas(a))),
            ("required"@, JsonView::Array(required_names(a))),
            ("type"@, JsonView::Str("object"@)),
        ],
    )
}

fn arg_schema_value(a: &SkillArg) -> (r: Json)
    ensures
        r@ == arg_schema(a@),
{
    let mut m: Vec<(String, Json)> = object();
    if let Some(d) = &a.description {
        m = put(m, "description", text_value(d));
    }
    m = put(m, "type", text_value("string"));
    let r: Json = close(m);
    assert(r@ is Object);
    assert(r@->Object_0 =~= arg_schema(a@)->Object_0);
    r
}

impl Skill {
    /// The JSON Schema of the skill's arguments.
    pub fn input_schema(&self) -> (r: Json)
        ensures
            r@ == schema_of(self@.arguments),
    {
        let ghost all = self@.arguments;
        let mut props: Table<Json> = Table::new();
        let mut required: Vec<Json> = Vec::new();
        let mut i: usize = 0;
        assert(props.map().map_values(|j: Json| j@) =~= arg_schemas(all.take(0)));
        assert(crate::json::json_views(required@) =~= required_names(all.take(0)));
        while i < self.arguments.len()
            invariant
                i <= self.arguments@.len(),
                all == arg_views(self.arguments@),
                props.wf(),
                props.map().map_values(|j: Json| j@) == arg_schemas(all.take(i as int)),
                crate::json::json_views(required@) == required_names(all.take(i as int)),
            decreases self.arguments@.len() - i,
        {
            let a: &SkillArg = &self.arguments[i];
            let ghost before = props.map();
            let ghost had = required@;
            let schema: Json = arg_schema_value(a);
            props.insert(a.name.clone(), schema);
            proof {
                let t = all.take(i + 1);
                assert(t.drop_last() =~= all.take(i as int));
                assert(t.last() == a@);
                assert(before.insert(a.name@, schema).map_values(|j: Json| j@)
                    =~= before.map_values(|j: Json| j@).insert(a.name@, schema@));
            }
            if let Some(true) = a.required {
                required.push(Json::Str(a.name.clone()));
                assert(crate::json::json_views(required@) =~= crate::json::json_views(had).push(
                    JsonView::Str(a.name@),
                ));
            }
            i = i + 1;
        }
        assert(all.take(all.len() as int) =~= all);
        let mut m: Vec<(String, Json)> = object();
        m = put(m, "properties", object_of(&props));
        m = put(m, "required", crate::json::array_value(required));
        m = put(m, "type", text_value("object"));
        let r: Json = close(m);
        assert(r@->Object_0 =~= schema_of(all)->Object_0);
        r
    }

    /// The body with the placeholders filled in. Placeholders of no argument stay.
    pub fn instantiate(&self, args: &Json) -> (r: String)
        ensures
            r@ == filled(
                self@.body,
                self@.arguments,
                args@,
                self@.arguments.len() as int,
            ),
    {
        let ghost all = self@.arguments;
        let mut out: String = self.body.clone();
        let mut i: usize = 0;
        while i < self.arguments.len()
            invariant
                i <= self.arguments@.len(),
                all == arg_views(self.arguments@),
                out@ == filled(self.body@, all, args@, i as int),
            decreases self.arguments@.len() - i,
        {
            let name: &String = &self.arguments[i].name;
            assert(all[i as int].name == name@);
            let val: String = match args.get_str(name) {
                Some(s) => s,
                None => String::new(),
            };
            let pat: String = cat(&cat("{{", name), "}}");
            proof {
                reveal_strlit("{{");
                assert(val@ =~= given(args@, name@));
            }
            out = replace(&out, &pat, &val);
            i = i + 1;
        }
        out
    }

    /// A copy.
    pub fn dup(&self) -> (r: Self)
        ensures
            r@ == self@,
    {
        let r: Skill = Skill {
            name: self.name.clone(),
            description: dup_opt(&self.description),
            body: self.body.clone(),
            arguments: dup_args(&self.arguments),
            source: dup_opt(&self.source),
        };
        r
    }
}

fn dup_args(v: &Vec<SkillArg>) -> (r: Vec<SkillArg>)
    ensures
        arg_views(r@) == arg_views(v@),
{
    let mut out: Vec<SkillArg> = Vec::new();
    let mut i: usize = 0;
    while i < v.len()
        invariant
            i <= v@.len(),
            out@.len() == i,
            forall|k: int| 0 <= k < i ==> (#[trigger] out@[k])@ == v@[k]@,
        decreases v@.len() - i,
    {
        out.push(
            SkillArg {
                name: v[i].name.clone(),
                description: dup_opt(&v[i].description),
                required: v[i].required,
            },
        );
        i = i + 1;
    }
    assert(arg_views(out@) =~= arg_views(v@));
    out
}

// ---- the registry --------------------------------------------------------------------

/// Whether a file with the given extension holds a skill.
pub open spec fn skill_extension(ext: Option<Seq<char>>) -> bool {
    ext == Some("md"@) || ext == Some("markdown"@)
}

/// Whether a file with the given extension holds a skill.
pub fn is_skill_extension(ext: Option<&str>) -> (r: bool)
    ensures
        r == skill_extension(crate::text::opt_str_view(ext)),
{
    match ext {
        None => false,
        Some(e) => same(e, "md") || same(e, "markdown"),
    }
}

/// A file of the directory.
#[derive(Debug)]
pub struct SkillFile {
    /// The extension of its name.
    pub extension: Option<String>,
    pub text: String,
}

/// The skill of a file, if it holds one: a file with another extension does not, nor does
/// one that does not parse.
pub open spec fn skill_in(f: SkillFile) -> Option<SkillView> {
    if !skill_extension(crate::text::opt_view(f.extension)) {
        None
    } else {
        match skill_of(f.text@) {
            Err(_) => None,
            Ok(s) => Some(s),
        }
    }
}

/// The skills of the files `paths`, in their order; files that hold none are passed over.
pub open spec fn loaded(files: Map<Seq<char>, SkillFile>, paths: Seq<Seq<char>>) -> Seq<SkillView>
    decreases paths.len(),
{
    if paths.len() == 0 {
        Seq::empty()
    } else {
        let rest = loaded(files, paths.drop_last());
        match skill_in(files[paths.last()]) {
            None => rest,
            Some(s) => rest.push(SkillView { source: Some(paths.last()), ..s }),
        }
    }
}

/// The first skill with a name.
pub open spec fn skill_named(skills: Seq<SkillView>, name: Seq<char>) -> Option<SkillView>
    decreases skills.len(),
{
    if skills.len() == 0 {
        None
    } else if skills[0].name == name {
        Some(skills[0])
    } else {
        skill_named(skills.drop_first(), name)
    }
}

/// The loaded skills.
pub struct SkillRegistry {
    skills: Vec<Skill>,
    dir: Option<String>,
}

impl View for SkillRegistry {
    type V = Seq<SkillView>;

    closed spec fn view(&self) -> Seq<SkillView> {
        skill_views(self.skills@)
    }
}

impl SkillRegistry {
    /// The directory that the skills come from.
    pub closed spec fn folder(&self) -> Option<Seq<char>> {
        crate::text::opt_view(self.dir)
    }

    /// A registry without skills.
    pub fn new() -> (r: Self)
        ensures
            r@ == Seq::<SkillView>::empty(),
            r.folder() is None,
    {
        let r: SkillRegistry = SkillRegistry { skills: Vec::new(), dir: None };
        assert(r@ =~= Seq::<SkillView>::empty());
        r
    }

    /// Sets the directory, without loading it.
    pub fn set_dir(&mut self, dir: &str)
        ensures
            final(self)@ == old(self)@,
            final(self).folder() == Some(dir@),
    {
        self.dir = Some(dir.to_string());
    }

    /// The directory.
    pub fn dir(&self) -> (r: Option<&str>)
        ensures
            crate::text::opt_str_view(r) == self.folder(),
    {
        match &self.dir {
            None => None,
            Some(d) => Some(d.as_str()),
        }
    }

    /// Replaces the skills by those of the files of the directory, given as a table from
    /// path to file, or why the directory could not be read. How many there are. Without
    /// a directory there are none, and one that could not be read leaves the skills as
    /// they were.
    pub fn reload(&mut self, read: Result<&Table<SkillFile>, String>) -> (r: Result<usize, String>)
        requires
            read matches Ok(files) ==> files.wf(),
        ensures
            final(self).folder() == old(self).folder(),
            match (old(self).folder(), read) {
                (None, _) => r == Ok::<usize, String>(0) && final(self)@.len() == 0,
                (Some(_), Err(e)) => r == Err::<usize, String>(e) && final(self)@ == old(self)@,
                (Some(_), Ok(files)) => {
                    &&& final(self)@ == loaded(
                        files.map(),
                        crate::table::sorted(files.map().dom()),
                    )
                    &&& r matches Ok(n)
                    &&& n == final(self)@.len()
                },
            },
    {
        if self.dir.is_none() {
            self.skills = Vec::new();
            return Ok(0);
        }
        let files: &Table<SkillFile> = match read {
            Ok(f) => f,
            Err(e) => {
                return Err(e);
            },
        };
        let ghost keys = files.keys();
        proof {
            files.lemma_keys();
        }
        let mut skills: Vec<Skill> = Vec::new();
        let mut i: usize = 0;
        assert(skill_views(skills@) =~= Seq::<SkillView>::empty());
        while i < files.len()
            invariant
                files.wf(),
                keys == files.keys(),
                keys.len() == files.values().len(),
                forall|j: int|
                    0 <= j < keys.len() ==> #[trigger] files.values()[j] == files.map()[keys[j]],
                i <= keys.len(),
                skill_views(skills@) == loaded(files.map(), keys.take(i as int)),
            decreases keys.len() - i,
        {
            let ghost before = skills@;
            proof {
                let t = keys.take(i + 1);
                assert(t.drop_last() =~= keys.take(i as int));
                assert(t.last() == keys[i as int]);
            }
            let f: &SkillFile = files.value_at(i);
            let ext: Option<&str> = match &f.extension {
                Some(e) => Some(e.as_str()),
                None => None,
            };
            if is_skill_extension(ext) {
                if let Ok(s) = parse_skill_str(&f.text) {
                    let s: Skill = Skill {
                        name: s.name,
                        description: s.description,
                        body: s.body,
                        arguments: s.arguments,
                        source: Some(files.key_at(i).clone()),
                    };
                    skills.push(s);
                    assert(skill_views(skills@) =~= skill_views(before).push(s@));
                }
            }
            i = i + 1;
        }
        assert(keys.take(keys.len() as int) =~= keys);
        let n: usize = skills.len();
        self.skills = skills;
        Ok(n)
    }

    /// All skills.
    pub fn list(&self) -> (r: Vec<Skill>)
        ensures
            skill_views(r@) == self@,
    {
        let mut out: Vec<Skill> = Vec::new();
        let mut i: usize = 0;
        while i < self.skills.len()
            invariant
                i <= self.skills@.len(),
                out@.len() == i,
                forall|k: int| 0 <= k < i ==> (#[trigger] out@[k])@ == self.skills@[k]@,
            decreases self.skills@.len() - i,
        {
            out.push(self.skills[i].dup());
            i = i + 1;
        }
        assert(skill_views(out@) =~= self@);
        out
    }

    /// The skill with a name.
    pub fn get(&self, name: &str) -> (r: Option<&Skill>)
        ensures
            match r {
                Some(s) => skill_named(self@, name@) == Some(s@),
                None => skill_named(self@, name@) is None,
            },
    {
        let ghost all = self@;
        let mut i: usize = 0;
        assert(all.skip(0) =~= all);
        while i < self.skills.len()
            invariant
                all == self@,
                i <= self.skills@.len(),
                skill_named(all.skip(i as int), name@) == skill_named(all, name@),
            decreases self.skills@.len() - i,
        {
            assert(all.skip(i as int)[0] == self.skills@[i as int]@);
            if same(&self.skills[i].name, name) {
                return Some(&self.skills[i]);
            }
            assert(all.skip(i as int).drop_first() =~= all.skip(i + 1));
            i = i + 1;
        }
        None
    }

    /// The body of a skill with the placeholders filled in.
    pub fn invoke(&self, name: &str, args: &Json) -> (r: Result<String, String>)
        ensures
            match skill_named(self@, name@) {
                Some(s) => r matches Ok(t) && t@ == filled(
                    s.body,
                    s.arguments,
                    args@,
                    s.arguments.len() as int,
                ),
                None => r matches Err(e) && e@ == "unknown skill: "@ + name@,
            },
    {
        match self.get(name) {
            None => Err(cat("unknown skill: ", name)),
            Some(s) => Ok(s.instantiate(args)),
        }
    }
}

impl Default for SkillRegistry {
    fn default() -> (r: Self)
        ensures
            r@ == Seq::<SkillView>::empty(),
            r.folder() is None,
    {
        SkillRegistry::new()
    }
}

// ---- laws --------------------------------------------------------------------------

/// Every skill that parses has a name that is not blank.
pub proof fn skills_have_names(text: Seq<char>)
    ensures
        skill_of(text) matches Ok(s) ==> crate::text::trimmed(s.name).len() > 0 && s.source is None,
{
}

/// A skill without arguments is its body.
pub proof fn plain_skills_are_their_body(body: Seq<char>, args: JsonView)
    ensures
        filled(body, Seq::empty(), args, 0) == body,
{
}

/// A body without the placeholder of any argument stays as it is, whatever the
/// arguments are.
pub proof fn foreign_placeholders_stay(body: Seq<char>, a: Seq<ArgView>, args: JsonView, k: int)
    requires
        0 <= k <= a.len(),
        forall|i: int|
            0 <= i < a.len() ==> !crate::text::has_text(body, placeholder((#[trigger] a[i]).name)),
    ensures
        filled(body, a, args, k) == body,
    decreases k,
{
    if k > 0 {
        foreign_placeholders_stay(body, a, args, k - 1);
        assert(!crate::text::has_text(body, placeholder(a[k - 1].name)));
    }
}

/// The paths of the files that hold a skill, in order.
pub open spec fn holding(files: Map<Seq<char>, SkillFile>, paths: Seq<Seq<char>>) -> Seq<Seq<char>> {
    paths.filter(|p: Seq<char>| skill_in(files[p]) is Some)
}

/// A reload loads one skill from each file that holds one, in the order of the paths, and
/// nothing else: what was loaded before leaves no trace.
pub proof fn reloads_load_what_files_hold(
    files: Map<Seq<char>, SkillFile>,
    paths: Seq<Seq<char>>,
    i: int,
)
    ensures
        loaded(files, paths).len() == holding(files, paths).len() <= paths.len(),
        0 <= i < loaded(files, paths).len() ==> ({
            let p = holding(files, paths)[i];
            &&& paths.contains(p)
            &&& skill_in(files[p]) matches Some(s)
            &&& loaded(files, paths)[i] == (SkillView { source: Some(p), ..s })
        }),
    decreases paths.len(),
{
    let pred = |p: Seq<char>| skill_in(files[p]) is Some;
    reveal(Seq::filter);
    if paths.len() > 0 {
        let rest = paths.drop_last();
        reloads_load_what_files_hold(files, rest, i);
        if 0 <= i < loaded(files, rest).len() {
            let p = holding(files, rest)[i];
            let j = choose|j: int| 0 <= j < rest.len() && rest[j] == p;
            assert(paths[j] == p);
        }
        assert(paths.contains(paths.last())) by {
            assert(paths[paths.len() - 1] == paths.last());
        }
    }
}

/// The placeholder of an argument is its name in two pairs of braces.
pub proof fn placeholders_are_names_in_braces(name: Seq<char>)
    ensures
        placeholder(name) == seq!['{', '{'] + name + seq!['}', '}'],
{
    reveal_strlit("{{");
    reveal_strlit("}}");
    assert("{{"@ =~= seq!['{', '{']);
    assert("}}"@ =~= seq!['}', '}']);
}

/// Filling in goes on behind the first placeholder: of a body `a`, the placeholder and `b`, the
/// result is `a`, the value and what `b` alone becomes. A body without the placeholder stays.
pub proof fn filling_in_goes_on(
    skill: &Skill,
    rest: &Skill,
    args: &Json,
    r: String,
    t: String,
    a: Seq<char>,
    value: Seq<char>,
)
    requires
        call_ensures(Skill::instantiate, (skill, args), r),
        call_ensures(Skill::instantiate, (rest, args), t),
        skill.arguments@.len() == 1,
        rest.arguments == skill.arguments,
        skill.body@ == a + (seq!['{', '{'] + skill.arguments@[0].name@ + seq!['}', '}'])
            + rest.body@,
        forall|i: int|
            0 <= i < a.len() ==> #[trigger] skill.body@.subrange(
                i,
                i + (4 + skill.arguments@[0].name@.len()),
            ) != seq!['{', '{'] + skill.arguments@[0].name@ + seq!['}', '}'],
        match crate::json::field(args@, skill.arguments@[0].name@) {
            Some(JsonView::Str(s)) => value == s,
            _ => value.len() == 0,
        },
    ensures
        r@ == a + value + t@,
        (forall|i: int|
            0 <= i <= rest.body@.len() - (4 + skill.arguments@[0].name@.len())
                ==> #[trigger] rest.body@.subrange(i, i + (4 + skill.arguments@[0].name@.len()))
                != seq!['{', '{'] + skill.arguments@[0].name@ + seq!['}', '}']) ==> t@ == rest.body@,
{
    let name = skill.arguments@[0].name@;
    let p = placeholder(name);
    let b = rest.body@;
    placeholders_are_names_in_braces(name);
    assert(p.len() == 4 + name.len());
    assert(given(args@, name) =~= value);
    let va = arg_views(skill.arguments@);
    assert(va[0].name == name);
    reveal_with_fuel(filled, 3);
    assert forall|i: int| 0 <= i < a.len() implies #[trigger] (a + p + b).subrange(
        i,
        i + p.len(),
    ) != p by {
        assert(skill.body@.subrange(i, i + (4 + name.len())) != p);
    }
    crate::text::replacements_go_on(a, p, b, value);
    assert(filled(skill.body@, va, args@, 1) == a + value + crate::text::replaced(b, p, value));
    if forall|i: int|
        0 <= i <= b.len() - (4 + name.len()) ==> #[trigger] b.subrange(i, i + (4 + name.len()))
            != p {
        assert forall|i: int| 0 <= i <= b.len() - p.len() implies #[trigger] b.subrange(
            i,
            i + p.len(),
        ) != p by {
            assert(b.subrange(i, i + (4 + name.len())) != p);
        }
        crate::text::missing_texts_are_not_found(b, p);
    }
}

proof fn lemma_pieces_replaced(texts: Seq<Seq<char>>, name: Seq<char>, w: Seq<char>)
    requires
        texts.len() > 0,
        forall|i: int, k: int|
            0 <= i < texts.len() && 0 <= k < texts[i].len() ==> #[trigger] texts[i][k] != '{',
    ensures
        crate::text::replaced(
            crate::text::joined(texts, placeholder(name)),
            placeholder(name),
            w,
        ) == crate::text::joined(texts, w),
    decreases texts.len(),
{
    let p = placeholder(name);
    placeholders_are_names_in_braces(name);
    let a = texts[0];
    if texts.len() == 1 {
        assert forall|i: int| 0 <= i <= a.len() - p.len() implies #[trigger] a.subrange(
            i,
            i + p.len(),
        ) != p by {
            assert(a.subrange(i, i + p.len())[0] == texts[0][i]);
            assert(p[0] == '{');
        }
        crate::text::missing_texts_are_not_found(a, p);
    } else {
        let rest = texts.drop_first();
        assert forall|i: int, k: int|
            0 <= i < rest.len() && 0 <= k < rest[i].len() implies #[trigger] rest[i][k] != '{' by {
            assert(rest[i] == texts[i + 1]);
            assert(texts[i + 1][k] != '{');
        }
        lemma_pieces_replaced(rest, name, w);
        lemma_joined_front(texts, p);
        lemma_joined_front(texts, w);
        let b = crate::text::joined(rest, p);
        assert forall|i: int| 0 <= i < a.len() implies #[trigger] (a + p + b).subrange(
            i,
            i + p.len(),
        ) != p by {
            assert((a + p + b).subrange(i, i + p.len())[0] == texts[0][i]);
            assert(p[0] == '{');
        }
        crate::text::replacements_go_on(a, p, b, w);
    }
}

proof fn lemma_joined_front(v: Seq<Seq<char>>, sep: Seq<char>)
    requires
        v.len() > 1,
    ensures
        crate::text::joined(v, sep) == v[0] + sep + crate::text::joined(v.drop_first(), sep),
    decreases v.len(),
{
    let rest = v.drop_first();
    if v.len() == 2 {
        assert(v.drop_last() =~= seq![v[0]]);
        assert(crate::text::joined(v.drop_last(), sep) == v[0]);
        assert(crate::text::joined(rest, sep) == v[1]);
    } else {
        lemma_joined_front(v.drop_last(), sep);
        assert(v.drop_last().drop_first() =~= rest.drop_last());
        let m = crate::text::joined(rest.drop_last(), sep);
        assert((v[0] + sep + m) + sep + v.last() =~= v[0] + sep + (m + sep + v.last()));
        assert(rest.last() == v.last());
    }
}

/// Every placeholder is filled in: of a body of texts without braces and the placeholder
/// between each two, the result is those texts with the value between each two.
pub proof fn every_placeholder_is_filled_in(
    skill: &Skill,
    args: &Json,
    r: String,
    texts: Seq<Seq<char>>,
    value: Seq<char>,
)
    requires
        call_ensures(Skill::instantiate, (skill, args), r),
        skill.arguments@.len() == 1,
        texts.len() > 0,
        forall|i: int, k: int|
            0 <= i < texts.len() && 0 <= k < texts[i].len() ==> #[trigger] texts[i][k] != '{',
        skill.body@ == crate::text::joined(
            texts,
            seq!['{', '{'] + skill.arguments@[0].name@ + seq!['}', '}'],
        ),
        crate::json::field(args@, skill.arguments@[0].name@) == Some(JsonView::Str(value)),
    ensures
        r@ == crate::text::joined(texts, value),
{
    let name = skill.arguments@[0].name@;
    placeholders_are_names_in_braces(name);
    lemma_pieces_replaced(texts, name, value);
    assert(arg_views(skill.arguments@)[0].name == name);
    reveal_with_fuel(filled, 3);
}

/// Arguments are filled in one after the other: a skill with one more argument becomes what
/// that argument makes of what the others made of it. So none is left out.
pub proof fn arguments_are_filled_in_one_by_one(
    skill: &Skill,
    front: &Skill,
    last: &Skill,
    args: &Json,
    r: String,
    made: String,
    t: String,
)
    requires
        call_ensures(Skill::instantiate, (skill, args), r),
        call_ensures(Skill::instantiate, (front, args), made),
        call_ensures(Skill::instantiate, (last, args), t),
        skill.arguments@.len() > 0,
        front.body == skill.body,
        front.arguments@ == skill.arguments@.drop_last(),
        last.body@ == made@,
        last.arguments@ == seq![skill.arguments@.last()],
    ensures
        r@ == t@,
{
    let n = skill.arguments@.len() as int;
    let v = arg_views(skill.arguments@);
    let f = arg_views(front.arguments@);
    assert(f =~= v.drop_last());
    lemma_filled_front(skill.body@, v, args@, n - 1);
    assert(arg_views(last.arguments@)[0] == v[n - 1]);
    reveal_with_fuel(filled, 3);
}

proof fn lemma_filled_front(body: Seq<char>, a: Seq<ArgView>, args: JsonView, k: int)
    requires
        0 <= k < a.len(),
    ensures
        filled(body, a.drop_last(), args, k) == filled(body, a, args, k),
    decreases k,
{
    if k > 0 {
        lemma_filled_front(body, a, args, k - 1);
    }
}

/// A skill is invoked by its name: the first that has it is filled in, and a name that none
/// has is an error.
pub proof fn skills_are_invoked_by_name(
    registry: &SkillRegistry,
    name: &str,
    args: &Json,
    r: Result<String, String>,
    i: int,
)
    requires
        call_ensures(SkillRegistry::invoke, (registry, name, args), r),
    ensures
        (forall|j: int| 0 <= j < registry@.len() ==> (#[trigger] registry@[j]).name != name@)
            <==> r is Err,
        r matches Err(e) ==> e@ == "unknown skill: "@ + name@,
        0 <= i < registry@.len() && registry@[i].name == name@ && (forall|j: int|
            0 <= j < i ==> (#[trigger] registry@[j]).name != name@) ==> (r matches Ok(t) && t@
            == filled(
            registry@[i].body,
            registry@[i].arguments,
            args@,
            registry@[i].arguments.len() as int,
        )),
{
    lemma_skill_named(registry@, name@, i);
}

proof fn lemma_skill_named(v: Seq<SkillView>, name: Seq<char>, i: int)
    ensures
        skill_named(v, name) is None <==> forall|j: int|
            0 <= j < v.len() ==> (#[trigger] v[j]).name != name,
        0 <= i < v.len() && v[i].name == name && (forall|j: int|
            0 <= j < i ==> (#[trigger] v[j]).name != name) ==> skill_named(v, name) == Some(v[i]),
    decreases v.len(),
{
    if v.len() > 0 {
        let rest = v.drop_first();
        lemma_skill_named(rest, name, i - 1);
        if v[0].name != name {
            if skill_named(rest, name) is None {
                assert forall|j: int| 0 <= j < v.len() implies (#[trigger] v[j]).name != name by {
                    if j > 0 {
                        assert(v[j] == rest[j - 1]);
                    }
                }
            }
            if forall|j: int| 0 <= j < v.len() ==> (#[trigger] v[j]).name != name {
                assert forall|j: int| 0 <= j < rest.len() implies (#[trigger] rest[j]).name
                    != name by {
                    assert(rest[j] == v[j + 1]);
                }
            }
            if 0 < i < v.len() && (forall|j: int| 0 <= j < i ==> (#[trigger] v[j]).name != name) {
                assert forall|j: int| 0 <= j < i - 1 implies (#[trigger] rest[j]).name != name by {
                    assert(rest[j] == v[j + 1]);
                }
                assert(rest[i - 1] == v[i]);
            }
        }
    }
}

/// The schema of a skill tells of every argument as a text, with its description, and demands
/// those that are required, in their order.
pub proof fn schemas_tell_of_the_arguments(a: Seq<ArgView>, x: ArgView)
    ensures
        arg_schemas(Seq::empty()) == Map::<Seq<char>, JsonView>::empty(),
        arg_schemas(a.push(x)).dom().contains(x.name),
        arg_schemas(a.push(x)) == arg_schemas(a).insert(x.name, arg_schemas(a.push(x))[x.name]),
        crate::json::field(arg_schemas(a.push(x))[x.name], "type"@) == Some(
            JsonView::Str("string"@),
        ),
        x.description matches Some(d) ==> crate::json::field(
            arg_schemas(a.push(x))[x.name],
            "description"@,
        ) == Some(JsonView::Str(d)),
        required_names(Seq::empty()) == Seq::<JsonView>::empty(),
        x.required == Some(true) ==> required_names(a.push(x)) == required_names(a).push(
            JsonView::Str(x.name),
        ),
        x.required != Some(true) ==> required_names(a.push(x)) == required_names(a),
        crate::json::field(schema_of(a), "properties"@) == Some(
            crate::json::sorted_object(arg_schemas(a)),
        ),
        crate::json::field(schema_of(a), "required"@) == Some(JsonView::Array(required_names(a))),
        crate::json::field(schema_of(a), "type"@) == Some(JsonView::Str("object"@)),
{
    reveal_strlit("type");
    reveal_strlit("properties");
    reveal_strlit("required");
    reveal_strlit("description");
    assert("type"@.len() == 4);
    assert("properties"@.len() == 10);
    assert("required"@.len() == 8);
    assert("description"@.len() == 11);
    assert(a.push(x).drop_last() =~= a);
    assert(arg_schemas(a.push(x)) =~= arg_schemas(a).insert(x.name, arg_schema(x)));
    let m = schema_of(a)->Object_0;
    let p = m[0];
    let q = m[1];
    let r = m[2];
    assert(m =~= seq![p, q, r]);
    assert(m.drop_first() =~= seq![q, r]);
    assert(seq![q, r].drop_first() =~= seq![r]);
    let n = arg_schema(x)->Object_0;
    if x.description is Some {
        assert(n =~= seq![n[0], n[1]]);
        assert(n.drop_first() =~= seq![n[1]]);
    }
    reveal_with_fuel(crate::json::member, 4);
}

/// A value stands without the white space around it and without one pair of quotes.
pub proof fn values_are_unquoted(a: Seq<char>, x: Seq<char>, b: Seq<char>)
    requires
        forall|k: int| 0 <= k < a.len() ==> crate::text::white(#[trigger] a[k]),
        forall|k: int| 0 <= k < b.len() ==> crate::text::white(#[trigger] b[k]),
    ensures
        unquoted(a + (seq!['"'] + x + seq!['"']) + b) == x,
        unquoted(a + (seq!['\''] + x + seq!['\'']) + b) == x,
        (x.len() > 0 ==> !crate::text::white(x[0]) && !crate::text::white(x.last()) && x[0] != '"'
            && x[0] != '\'') ==> unquoted(a + x + b) == x,
{
    let p = seq!['"'] + x + seq!['"'];
    let q = seq!['\''] + x + seq!['\''];
    crate::text::trimming_takes_the_white_space_off(a, p, b);
    crate::text::trimming_takes_the_white_space_off(a, q, b);
    assert(p.subrange(1, p.len() - 1) =~= x);
    assert(q.subrange(1, q.len() - 1) =~= x);
    if x.len() > 0 ==> !crate::text::white(x[0]) && !crate::text::white(x.last()) {
        crate::text::trimming_takes_the_white_space_off(a, x, b);
    }
}

/// How the head of a skill file is read, line by line: a name and a description are the values
/// behind their keys, arguments are the items that follow, other keys, comments and blank lines
/// are passed over, and what comes later wins.
pub proof fn heads_are_read_line_by_line(
    lines: Seq<Seq<char>>,
    i: int,
    m: MetaView,
    k: Seq<char>,
    v: Seq<char>,
)
    requires
        0 <= i < lines.len(),
    ensures
        meta_of(lines, lines.len() as int, m) == m,
        crate::text::trim_end_of(lines[i]).len() == 0 ==> meta_of(lines, i, m) == meta_of(
            lines,
            i + 1,
            m,
        ),
        ({
            let l = crate::text::trim_end_of(lines[i]);
            let t = crate::text::trim_start_of(l);
            &&& t.len() > 0 && t[0] == '#' ==> meta_of(lines, i, m) == meta_of(lines, i + 1, m)
            &&& (forall|j: int| 0 <= j < l.len() ==> #[trigger] l[j] != ':') ==> meta_of(lines, i, m)
                == meta_of(lines, i + 1, m)
            &&& l == k + seq![':'] + v && (forall|j: int| 0 <= j < k.len() ==> #[trigger] k[j] != ':')
                && (t.len() > 0 ==> t[0] != '#') ==> {
                let key = crate::text::trimmed(k);
                let value = unquoted(crate::text::trimmed(v));
                &&& key == "name"@ ==> meta_of(lines, i, m) == meta_of(
                    lines,
                    i + 1,
                    MetaView { name: value, description: m.description, arguments: m.arguments },
                )
                &&& key == "description"@ ==> meta_of(lines, i, m) == meta_of(
                    lines,
                    i + 1,
                    MetaView { name: m.name, description: Some(value), arguments: m.arguments },
                )
                &&& key == "arguments"@ ==> meta_of(lines, i, m) == meta_of(
                    lines,
                    items_of(lines, i + 1, m.arguments).1,
                    MetaView {
                        name: m.name,
                        description: m.description,
                        arguments: items_of(lines, i + 1, m.arguments).0,
                    },
                )
                &&& key != "name"@ && key != "description"@ && key != "arguments"@ ==> meta_of(
                    lines,
                    i,
                    m,
                ) == meta_of(lines, i + 1, m)
            }
        }),
{
    reveal_strlit("name");
    reveal_strlit("description");
    reveal_strlit("arguments");
    assert("name"@.len() == 4 && "description"@.len() == 11 && "arguments"@.len() == 9);
    let l = crate::text::trim_end_of(lines[i]);
    if forall|j: int| 0 <= j < l.len() ==> #[trigger] l[j] != ':' {
        crate::text::separators_part_texts(l, ':', Seq::empty());
    }
    if l == k + seq![':'] + v && (forall|j: int| 0 <= j < k.len() ==> #[trigger] k[j] != ':') {
        crate::text::separators_part_texts(k, ':', v);
    }
}

/// How the items behind `arguments` are read: each line that begins with a dash is one argument,
/// with the indented lines that follow it, as long as it has a name; the first other line ends
/// them.
pub proof fn arguments_are_read_item_by_item(lines: Seq<Seq<char>>, i: int, args: Seq<ArgView>)
    requires
        0 <= i < lines.len(),
    ensures
        ({
            let t = crate::text::trim_start_of(lines[i]);
            let item = t.len() >= 2 && t[0] == '-' && t[1] == ' ';
            let a = continued(lines, i + 1, arg_of_item(lines[i]));
            &&& !item ==> items_of(lines, i, args) == (args, i)
            &&& item && a.0.name.len() > 0 ==> items_of(lines, i, args) == items_of(
                lines,
                a.1,
                args.push(a.0),
            )
            &&& item && a.0.name.len() == 0 ==> items_of(lines, i, args) == items_of(
                lines,
                a.1,
                args,
            )
        }),
        items_of(lines, lines.len() as int, args) == (args, lines.len() as int),
{
    reveal_strlit("- ");
    let t = crate::text::trim_start_of(lines[i]);
    if t.len() >= 2 && t[0] == '-' && t[1] == ' ' {
        assert(t.take(2) =~= "- "@);
    }
    if is_item(lines[i]) {
        assert(t.take(2)[0] == '-' && t.take(2)[1] == ' ');
    }
}

/// The lines that go on with an argument are indented, are no items and hold something: each
/// adds what it says.
pub proof fn arguments_go_on_while_indented(lines: Seq<Seq<char>>, i: int, a: ArgView)
    requires
        0 <= i < lines.len(),
    ensures
        ({
            let l = lines[i];
            let t = crate::text::trim_start_of(l);
            let item = t.len() >= 2 && t[0] == '-' && t[1] == ' ';
            let more = l.len() > 0 && (l[0] == ' ' || l[0] == '\t') && !item && t.len() > 0;
            &&& more ==> continued(lines, i, a) == continued(lines, i + 1, arg_with_line(a, l))
            &&& !more ==> continued(lines, i, a) == (a, i)
        }),
        continued(lines, lines.len() as int, a) == (a, lines.len() as int),
{
    reveal_strlit("- ");
    let t = crate::text::trim_start_of(lines[i]);
    if t.len() >= 2 && t[0] == '-' && t[1] == ' ' {
        assert(t.take(2) =~= "- "@);
    }
    if is_item(lines[i]) {
        assert(t.take(2)[0] == '-' && t.take(2)[1] == ' ');
    }
}

/// What a key says of an argument: its name, its description, and that it is required for `true`,
/// `yes` and `1`. Other keys say nothing.
pub proof fn keys_describe_arguments(a: ArgView, key: Seq<char>, value: Seq<char>, k: Seq<char>)
    requires
        k == crate::text::trimmed(key),
    ensures
        ({
            let v = unquoted(crate::text::trimmed(value));
            let r = arg_with(a, key, value);
            &&& k == "name"@ ==> r.name == v && r.description == a.description && r.required
                == a.required
            &&& k == "description"@ ==> r.description == Some(v) && r.name == a.name && r.required
                == a.required
            &&& k == "required"@ ==> r.name == a.name && r.description == a.description && r.required
                == Some(v == "true"@ || v == "yes"@ || v == "1"@)
            &&& k != "name"@ && k != "description"@ && k != "required"@ ==> r == a
        }),
{
    reveal_strlit("name");
    reveal_strlit("description");
    reveal_strlit("required");
    assert("name"@.len() == 4 && "description"@.len() == 11 && "required"@.len() == 8);
}

/// An item tells an argument in fields, which commas part: a key and a value, which a colon
/// parts, or a name alone. An indented line tells one key and its value.
pub proof fn items_tell_arguments_field_by_field(
    fields: Seq<Seq<char>>,
    f: Seq<char>,
    a: ArgView,
    k: Seq<char>,
    v: Seq<char>,
    line: Seq<char>,
)
    requires
        forall|j: int| 0 <= j < k.len() ==> #[trigger] k[j] != ':',
    ensures
        arg_of_fields(fields, 0) == no_arg(),
        no_arg().name.len() == 0 && no_arg().description is None && no_arg().required is None,
        arg_of_fields(fields.push(f), 1int + fields.len()) == arg_with_field(
            arg_of_fields(fields, fields.len() as int),
            f,
        ),
        arg_with_field(a, k + seq![':'] + v) == arg_with(a, k, v),
        a.name.len() == 0 ==> arg_with_field(a, k).name == unquoted(crate::text::trimmed(k)),
        a.name.len() > 0 ==> arg_with_field(a, k) == a,
        crate::text::trimmed(line) == k + seq![':'] + v ==> arg_with_line(a, line) == arg_with(a, k, v),
        crate::text::trimmed(line) == k ==> arg_with_line(a, line) == a,
        ({
            let t = crate::text::trim_start_of(crate::text::trim_start_of(line).skip(2));
            let w = crate::text::parts(t, ',');
            arg_of_item(line) == arg_of_fields(w, w.len() as int)
        }),
{
    crate::text::separators_part_texts(k, ':', v);
    lemma_fields_front(fields, f, fields.len() as int);
}

proof fn lemma_fields_front(fields: Seq<Seq<char>>, f: Seq<char>, k: int)
    requires
        k <= fields.len(),
    ensures
        arg_of_fields(fields.push(f), k) == arg_of_fields(fields, k),
    decreases k,
{
    if k > 0 {
        lemma_fields_front(fields, f, k - 1);
    }
}

/// How a skill file is read: a head between two lines of dashes, and behind it the body without
/// the line breaks in front of it. A file without a head, or whose head has no name, is none.
pub proof fn files_hold_a_head_and_a_body(
    text: &str,
    r: Result<Skill, String>,
    n: nat,
    a: Seq<char>,
    head: Seq<char>,
    tail: Seq<char>,
    fence: Seq<char>,
    m: MetaView,
)
    requires
        fence == seq!['\n', '-', '-', '-'],
        call_ensures(parse_skill_str, (text,), r),
        text@ == Seq::new(n, |i: int| '\u{feff}') + (a + (seq!['-', '-', '-'] + head + fence
            + tail)),
        forall|i: int| 0 <= i < a.len() ==> crate::text::white(#[trigger] a[i]),
        a.len() > 0 ==> a[0] != '\u{feff}',
        forall|i: int|
            0 <= i < head.len() ==> (#[trigger] (head + fence + tail).skip(i)).take(4) != fence,
        m == meta_of(
            crate::text::lines_of(crate::text::strip_leading(head, '\n')),
            0,
            MetaView { name: Seq::empty(), description: None, arguments: Seq::empty() },
        ),
    ensures
        r is Ok <==> crate::text::trimmed(m.name).len() > 0,
        r matches Ok(s) ==> {
            &&& s.name@ == m.name
            &&& s.body@ == crate::text::strip_leading(tail, '\n')
            &&& s@.arguments == m.arguments
            &&& s@.description == m.description
        },
{
    reveal_strlit("---");
    reveal_strlit("\n---");
    let d = seq!['-', '-', '-'];
    let e = fence;
    assert("---"@ =~= d);
    assert("\n---"@ =~= e);
    let t = d + head + e + tail;
    let u = a + t;
    crate::text::leading_runs_are_stripped(u, '\u{feff}', n);
    assert(crate::text::strip_leading(text@, '\u{feff}') == u);
    lemma_front_trimmed(a, t);
    assert(t.take(3) =~= d);
    assert(t.skip(3) =~= head + e + tail);
    assert forall|i: int| 0 <= i < head.len() implies #[trigger] (head + e + tail).subrange(
        i,
        i + e.len(),
    ) != e by {
        let w = head + e + tail;
        assert(w.skip(i).take(4) =~= w.subrange(i, i + e.len()));
    }
    crate::text::texts_are_split_at_the_first(head, e, tail);
    assert(no_meta() == (MetaView {
        name: Seq::empty(),
        description: None,
        arguments: Seq::empty(),
    }));
}

proof fn lemma_front_trimmed(a: Seq<char>, t: Seq<char>)
    requires
        forall|i: int| 0 <= i < a.len() ==> crate::text::white(#[trigger] a[i]),
        t.len() > 0,
        t[0] == '-',
    ensures
        crate::text::trim_start_of(a + t) == t,
    decreases a.len(),
{
    let s = a + t;
    if a.len() == 0 {
        assert(s =~= t);
    } else {
        let b = a.drop_first();
        assert forall|i: int| 0 <= i < b.len() implies crate::text::white(#[trigger] b[i]) by {
            assert(b[i] == a[i + 1]);
        }
        lemma_front_trimmed(b, t);
        assert(s.drop_first() =~= b + t);
        assert(s[0] == a[0]);
    }
}

/// The files that hold skills are those that end in `md` or `markdown` and can be read as one.
pub proof fn skills_are_in_markdown_files(f: SkillFile)
    ensures
        skill_in(f) is Some <==> (f.extension matches Some(e) && (e@ == "md"@ || e@ == "markdown"@))
            && skill_of(f.text@) is Ok,
        skill_in(f) matches Some(s) ==> skill_of(f.text@) == Ok::<SkillView, Seq<char>>(s),
{
}

/// A text that begins with no dashes holds no head, and one without a line of dashes behind its
/// head has a head that never ends: neither is read as a skill, and each is told for what it is.
pub proof fn files_without_a_head_are_none(text: &str, r: Result<Skill, String>)
    requires
        call_ensures(parse_skill_str, (text,), r),
        text@.len() > 0 ==> text@[0] != '\u{feff}' && !crate::text::white(text@[0]),
    ensures
        !(text@.len() >= 3 && text@[0] == '-' && text@[1] == '-' && text@[2] == '-') ==> r is Err
            && r->Err_0@ == "skill missing frontmatter (expected leading '---')"@,
        text@.len() >= 3 && text@[0] == '-' && text@[1] == '-' && text@[2] == '-' && (forall|i: int|
            3 <= i <= text@.len() - 4 ==> #[trigger] text@.subrange(i, i + 4) != "\n---"@) ==> r is Err
            && r->Err_0@ == "skill frontmatter missing closing '---'"@,
{
    reveal_strlit("---");
    reveal_strlit("\n---");
    let s = text@;
    crate::text::leading_runs_are_stripped(s, '\u{feff}', 0);
    assert(Seq::new(0, |i: int| '\u{feff}') + s =~= s);
    assert(crate::text::trim_start_of(s) == s);
    if s.len() >= 3 && s[0] == '-' && s[1] == '-' && s[2] == '-' {
        assert(s.take(3) =~= "---"@);
        let t = s.skip(3);
        if forall|i: int| 3 <= i <= s.len() - 4 ==> #[trigger] s.subrange(i, i + 4) != "\n---"@ {
            assert forall|i: int| 0 <= i <= t.len() - 4 implies #[trigger] t.subrange(i, i + 4)
                != "\n---"@ by {
                assert(t.subrange(i, i + 4) =~= s.subrange(i + 3, i + 3 + 4));
            }
            crate::text::missing_texts_are_not_found(t, "\n---"@);
        }
    } else if crate::text::begins(s, "---"@) {
        assert(s.take(3)[0] == '-' && s.take(3)[1] == '-' && s.take(3)[2] == '-');
    }
}

/// Files are loaded in the order of their paths, each with the path that it came from.
pub proof fn files_are_loaded_in_order(
    files: Map<Seq<char>, SkillFile>,
    paths: Seq<Seq<char>>,
    p: Seq<char>,
)
    ensures
        loaded(files, Seq::empty()).len() == 0,
        skill_in(files[p]) is None ==> loaded(files, paths.push(p)) == loaded(files, paths),
        skill_in(files[p]) matches Some(s) ==> loaded(files, paths.push(p)) == loaded(
            files,
            paths,
        ).push((SkillView {
            name: s.name,
            description: s.description,
            body: s.body,
            arguments: s.arguments,
            source: Some(p),
        })),
{
    assert(paths.push(p).drop_last() =~= paths);
}

/// The files of skills are those that end in `md` or `markdown`.
pub proof fn skills_have_their_extensions(ext: Option<&str>, r: bool)
    requires
        call_ensures(is_skill_extension, (ext,), r),
    ensures
        r <==> (ext matches Some(e) && (e@ == "md"@ || e@ == "markdown"@)),
{
}

/// A reload takes the skills of the folder's files in the order of their paths, and counts them; a
/// folder that cannot be read changes nothing, and without a folder there are no skills.
pub proof fn reloads_take_the_folder(
    s: &mut SkillRegistry,
    read: Result<&Table<SkillFile>, String>,
    r: Result<usize, String>,
)
    requires
        read matches Ok(files) ==> files.wf(),
        call_ensures(SkillRegistry::reload, (s, read), r),
    ensures
        old(s).folder() is None ==> r == Ok::<usize, String>(0) && final(s)@.len() == 0,
        old(s).folder() is Some ==> (read matches Err(e) ==> r == Err::<usize, String>(e) && final(
            s)@ == old(s)@),
        old(s).folder() is Some ==> (read matches Ok(files) ==> (r matches Ok(n) && n == final(
            s)@.len()) && final(s)@ == loaded(
            files.map(),
            crate::table::sorted(files.map().dom()),
        )),
        final(s).folder() == old(s).folder(),
{
}

} // verus!
