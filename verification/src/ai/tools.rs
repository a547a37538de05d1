//! The tools the agent can call: their descriptions, the checking of a
//! call's arguments, and the text each tool answers with.
use vstd::prelude::*;
use crate::ai::calc::{arithmetic_expr, parse_arithmetic, Expr};
use crate::json::{json_get, opt_i64, opt_str, JsonValue};
use crate::text::{chars_of, decimal, int_decimal, occurs_at, owned, push_i64, push_str, push_u64, same_text, string_of_range};

verus! {

/// Describes a tool the agent can invoke.
pub struct ToolDef {
    pub name: &'static str,
    pub description: &'static str,
    pub parameters_schema: &'static str,
}

/// A tool definition as texts: name, description, parameter schema.
pub open spec fn tool_view(t: ToolDef) -> (Seq<char>, Seq<char>, Seq<char>) {
    (t.name@, t.description@, t.parameters_schema@)
}

/// The tools available to the agent, in order.
pub open spec fn tool_list() -> Seq<(Seq<char>, Seq<char>, Seq<char>)> {
    seq![
        ("search_documents"@,
         "Search the indexed document library by keyword query. Returns matching file paths, relevance scores, and text snippets."@,
         "{\"type\":\"object\",\"properties\":{\"query\":{\"type\":\"string\",\"description\":\"The search query\"},\"max_results\":{\"type\":\"integer\",\"description\":\"Maximum number of results to return (default 5)\"}},\"required\":[\"query\"]}"@),
        ("read_file"@,
         "Read the text content of a file given its absolute path. Returns extracted text (truncated to 4000 characters)."@,
         "{\"type\":\"object\",\"properties\":{\"path\":{\"type\":\"string\",\"description\":\"Absolute path to the file\"}},\"required\":[\"path\"]}"@),
        ("list_files"@,
         "List files in the index, optionally filtered by extension and/or filename substring."@,
         "{\"type\":\"object\",\"properties\":{\"extension\":{\"type\":\"string\",\"description\":\"Filter by file extension (e.g. 'pdf', 'txt')\"},\"name_contains\":{\"type\":\"string\",\"description\":\"Filter filenames containing this substring\"}}}"@),
        ("transform_document"@,
         "Transform the text of a document as an instruction says (for example summarize it, rewrite it, or pull out its key points). Returns the transformed text."@,
         "{\"type\":\"object\",\"properties\":{\"path\":{\"type\":\"string\",\"description\":\"Absolute path to the document\"},\"prompt\":{\"type\":\"string\",\"description\":\"How to transform the document\"}},\"required\":[\"path\",\"prompt\"]}"@),
        ("calculate"@,
         "Evaluate a simple arithmetic expression. Supports +, -, *, / and parentheses."@,
         "{\"type\":\"object\",\"properties\":{\"expression\":{\"type\":\"string\",\"description\":\"The arithmetic expression to evaluate\"}},\"required\":[\"expression\"]}"@),
    ]
}

/// Returns the list of tools available to the agent.
pub fn available_tools() -> (r: Vec<ToolDef>)
    ensures
        r@.map_values(|t: ToolDef| tool_view(t)) == tool_list(),
{
    let r = vec![
        ToolDef {
            name: "search_documents",
            description: "Search the indexed document library by keyword query. Returns matching file paths, relevance scores, and text snippets.",
            parameters_schema: "{\"type\":\"object\",\"properties\":{\"query\":{\"type\":\"string\",\"description\":\"The search query\"},\"max_results\":{\"type\":\"integer\",\"description\":\"Maximum number of results to return (default 5)\"}},\"required\":[\"query\"]}",
        },
        ToolDef {
            name: "read_file",
            description: "Read the text content of a file given its absolute path. Returns extracted text (truncated to 4000 characters).",
            parameters_schema: "{\"type\":\"object\",\"properties\":{\"path\":{\"type\":\"string\",\"description\":\"Absolute path to the file\"}},\"required\":[\"path\"]}",
        },
        ToolDef {
            name: "list_files",
            description: "List files in the index, optionally filtered by extension and/or filename substring.",
            parameters_schema: "{\"type\":\"object\",\"properties\":{\"extension\":{\"type\":\"string\",\"description\":\"Filter by file extension (e.g. 'pdf', 'txt')\"},\"name_contains\":{\"type\":\"string\",\"description\":\"Filter filenames containing this substring\"}}}",
        },
        ToolDef {
            name: "transform_document",
            description: "Transform the text of a document as an instruction says (for example summarize it, rewrite it, or pull out its key points). Returns the transformed text.",
            parameters_schema: "{\"type\":\"object\",\"properties\":{\"path\":{\"type\":\"string\",\"description\":\"Absolute path to the document\"},\"prompt\":{\"type\":\"string\",\"description\":\"How to transform the document\"}},\"required\":[\"path\",\"prompt\"]}",
        },
        ToolDef {
            name: "calculate",
            description: "Evaluate a simple arithmetic expression. Supports +, -, *, / and parentheses.",
            parameters_schema: "{\"type\":\"object\",\"properties\":{\"expression\":{\"type\":\"string\",\"description\":\"The arithmetic expression to evaluate\"}},\"required\":[\"expression\"]}",
        },
    ];
    assert(r@.map_values(|t: ToolDef| tool_view(t)) =~= tool_list());
    r
}

/// The opening of the tools prompt.
pub open spec fn prompt_head() -> Seq<char> {
    "You have the following tools available. To use a tool, include a tool call in your response using this exact XML format:\n<tool_call>{\"name\": \"tool_name\", \"args\": {\"param\": \"value\"}}</tool_call>\n\nAvailable tools:\n\n"@
}

/// The closing of the tools prompt.
pub open spec fn prompt_tail() -> Seq<char> {
    "When you have enough information to answer the user's question, respond directly without tool calls. Only use tools when you need to look up information you don't already have.\n"@
}

/// The prompt entry for one tool.
pub open spec fn tool_entry(t: (Seq<char>, Seq<char>, Seq<char>)) -> Seq<char> {
    "- **"@ + t.0 + "**: "@ + t.1 + "\n  Parameters: "@ + t.2 + "\n\n"@
}

/// The prompt entries of `ts`, in order.
pub open spec fn tool_entries(ts: Seq<(Seq<char>, Seq<char>, Seq<char>)>) -> Seq<char>
    decreases ts.len(),
{
    if ts.len() == 0 {
        Seq::empty()
    } else {
        tool_entries(ts.drop_last()) + tool_entry(ts.last())
    }
}

/// Builds a formatted system prompt section describing the available tools.
pub fn tools_prompt() -> (r: String)
    ensures
        r@ == prompt_head() + tool_entries(tool_list()) + prompt_tail(),
{
    let tools = available_tools();
    let ghost ts = tools@.map_values(|t: ToolDef| tool_view(t));
    let mut prompt = owned(
        "You have the following tools available. To use a tool, include a tool call in your response using this exact XML format:\n<tool_call>{\"name\": \"tool_name\", \"args\": {\"param\": \"value\"}}</tool_call>\n\nAvailable tools:\n\n",
    );
    let mut i: usize = 0;
    while i < tools.len()
        invariant
            i <= tools@.len(),
            ts == tools@.map_values(|t: ToolDef| tool_view(t)),
            prompt@ == prompt_head() + tool_entries(ts.take(i as int)),
        decreases tools@.len() - i,
    {
        let tool = &tools[i];
        push_str(&mut prompt, "- **");
        push_str(&mut prompt, tool.name);
        push_str(&mut prompt, "**: ");
        push_str(&mut prompt, tool.description);
        push_str(&mut prompt, "\n  Parameters: ");
        push_str(&mut prompt, tool.parameters_schema);
        push_str(&mut prompt, "\n\n");
        proof {
            assert(ts.take(i + 1).drop_last() == ts.take(i as int));
            assert(ts.take(i + 1).last() == tool_view(*tool));
        }
        i = i + 1;
    }
    push_str(
        &mut prompt,
        "When you have enough information to answer the user's question, respond directly without tool calls. Only use tools when you need to look up information you don't already have.\n",
    );
    assert(ts.take(tools@.len() as int) == ts);
    prompt
}

} // verus!

verus! {

/// The text argument `key` of a tool call, or the empty text.
pub open spec fn str_arg(args: JsonValue, key: Seq<char>) -> Seq<char> {
    match opt_str(json_get(args, key)) {
        Some(s) => s,
        None => Seq::empty(),
    }
}

/// The `max_results` argument when it is an integer.
pub open spec fn max_results_given(args: JsonValue) -> Option<i64> {
    opt_i64(json_get(args, "max_results"@))
}

/// The `max_results` argument is an integer below 1.
pub open spec fn max_results_refused(args: JsonValue) -> bool {
    match max_results_given(args) {
        Some(n) => n < 1,
        None => false,
    }
}

/// The number of hits asked for: the `max_results` argument (at most
/// `usize::MAX`), 5 by default. A limit below 1 is refused before this.
pub open spec fn max_results_arg(args: JsonValue) -> usize {
    match max_results_given(args) {
        Some(n) => if n <= usize::MAX { n as usize } else { usize::MAX },
        None => 5,
    }
}

/// The text argument `key` of `args`, or the empty text.
pub fn string_arg(args: &JsonValue, key: &str) -> (r: String)
    ensures
        r@ == str_arg(*args, key@),
{
    match args.get(key) {
        Some(v) => match v.as_str() {
            Some(s) => owned(s),
            None => {
                proof {
                    reveal_strlit("");
                }
                owned("")
            },
        },
        None => {
            proof {
                reveal_strlit("");
            }
            owned("")
        },
    }
}

/// A checked tool call.
pub enum ToolRequest {
    SearchDocuments { query: String, max_results: usize },
    ReadFile { path: String },
    ListFiles { extension: String, name_contains: String },
    TransformDocument { path: String, prompt: String },
    Calculate { expression: String, parsed: Expr },
}

/// Checks the call of the tool `name` with `args`: the arguments each tool
/// needs, and whether the tool exists.
pub fn tool_request(name: &str, args: &JsonValue) -> (r: Result<ToolRequest, String>)
    ensures
        name@ == "search_documents"@ ==> match r {
            Ok(ToolRequest::SearchDocuments { query, max_results }) =>
                query@ == str_arg(*args, "query"@) && query@.len() > 0
                && !max_results_refused(*args)
                && max_results == max_results_arg(*args) && max_results >= 1,
            Err(e) => {
                ||| str_arg(*args, "query"@).len() == 0
                    && e@ == "search_documents requires a non-empty 'query' argument"@
                ||| str_arg(*args, "query"@).len() > 0 && max_results_refused(*args)
                    && e@ == "search_documents requires a positive 'max_results' argument"@
            },
            _ => false,
        },
        name@ == "read_file"@ ==> match r {
            Ok(ToolRequest::ReadFile { path }) => path@ == str_arg(*args, "path"@) && path@.len() > 0,
            Err(e) => str_arg(*args, "path"@).len() == 0 && e@ == "read_file requires a non-empty 'path' argument"@,
            _ => false,
        },
        name@ == "list_files"@ ==> match r {
            Ok(ToolRequest::ListFiles { extension, name_contains }) =>
                extension@ == str_arg(*args, "extension"@) && name_contains@ == str_arg(*args, "name_contains"@),
            _ => false,
        },
        name@ == "transform_document"@ ==> match r {
            Ok(ToolRequest::TransformDocument { path, prompt }) =>
                path@ == str_arg(*args, "path"@) && path@.len() > 0
                && prompt@ == str_arg(*args, "prompt"@) && prompt@.len() > 0,
            Err(e) => {
                ||| str_arg(*args, "path"@).len() == 0
                    && e@ == "transform_document requires a non-empty 'path' argument"@
                ||| str_arg(*args, "path"@).len() > 0 && str_arg(*args, "prompt"@).len() == 0
                    && e@ == "transform_document requires a non-empty 'prompt' argument"@
            },
            _ => false,
        },
        name@ == "calculate"@ ==> match r {
            Ok(ToolRequest::Calculate { expression, parsed }) =>
                expression@ == str_arg(*args, "expression"@) && expression@.len() > 0
                && arithmetic_expr(expression@) == Some(parsed.model()),
            Err(e) => {
                let x = str_arg(*args, "expression"@);
                ||| x.len() == 0 && e@ == "calculate requires a non-empty 'expression' argument"@
                ||| x.len() > 0 && arithmetic_expr(x) is None && e@ == "Failed to evaluate expression: "@ + x
            },
            _ => false,
        },
        name@ != "search_documents"@ && name@ != "read_file"@ && name@ != "list_files"@
            && name@ != "transform_document"@ && name@ != "calculate"@
            ==> (r matches Err(e) && e@ == "Unknown tool: "@ + name@),
{
    proof {
        reveal_strlit("search_documents");
        reveal_strlit("read_file");
        reveal_strlit("list_files");
        reveal_strlit("calculate");
        reveal_strlit("transform_document");
        assert("transform_document"@.len() == 18);
        assert("search_documents"@.len() == 16 && "list_files"@.len() == 10);
        assert("read_file"@.len() == 9 && "calculate"@.len() == 9);
        assert("read_file"@[0] != "calculate"@[0]);
    }
    if same_text(name, "search_documents") {
        let query = string_arg(args, "query");
        if query.as_str().is_empty() {
            return Err(owned("search_documents requires a non-empty 'query' argument"));
        }
        let given = match args.get("max_results") {
            Some(v) => v.as_i64(),
            None => None,
        };
        let max_results: usize = match given {
            Some(n) => {
                if n < 1 {
                    return Err(owned("search_documents requires a positive 'max_results' argument"));
                }
                if (n as u64) <= (usize::MAX as u64) { n as usize } else { usize::MAX }
            },
            None => 5,
        };
        Ok(ToolRequest::SearchDocuments { query, max_results })
    } else if same_text(name, "read_file") {
        let path = string_arg(args, "path");
        if path.as_str().is_empty() {
            return Err(owned("read_file requires a non-empty 'path' argument"));
        }
        Ok(ToolRequest::ReadFile { path })
    } else if same_text(name, "list_files") {
        let extension = string_arg(args, "extension");
        let name_contains = string_arg(args, "name_contains");
        Ok(ToolRequest::ListFiles { extension, name_contains })
    } else if same_text(name, "transform_document") {
        let path = string_arg(args, "path");
        if path.as_str().is_empty() {
            return Err(owned("transform_document requires a non-empty 'path' argument"));
        }
        let prompt = string_arg(args, "prompt");
        if prompt.as_str().is_empty() {
            return Err(owned("transform_document requires a non-empty 'prompt' argument"));
        }
        Ok(ToolRequest::TransformDocument { path, prompt })
    } else if same_text(name, "calculate") {
        let expression = string_arg(args, "expression");
        if expression.as_str().is_empty() {
            return Err(owned("calculate requires a non-empty 'expression' argument"));
        }
        match parse_arithmetic(expression.as_str()) {
            Some(parsed) => Ok(ToolRequest::Calculate { expression, parsed }),
            None => {
                let mut e = owned("Failed to evaluate expression: ");
                push_str(&mut e, expression.as_str());
                Err(e)
            },
        }
    } else {
        let mut e = owned("Unknown tool: ");
        push_str(&mut e, name);
        Err(e)
    }
}

} // verus!

verus! {

/// One search hit as the search tool reports it; the score is already
/// written with two decimals.
pub struct HitLine {
    pub path: String,
    pub score: String,
    pub snippet: String,
}

/// The report entry of hit number `n` (counting from 1).
pub open spec fn hit_entry(n: nat, h: HitLine) -> Seq<char> {
    decimal(n) + ". **"@ + h.path@ + "** (score: "@ + h.score@ + ")\n   "@ + h.snippet@ + "\n\n"@
}

/// The report entries of `hs`, numbered from 1.
pub open spec fn hit_entries(hs: Seq<HitLine>) -> Seq<char>
    decreases hs.len(),
{
    if hs.len() == 0 {
        Seq::empty()
    } else {
        hit_entries(hs.drop_last()) + hit_entry(hs.len(), hs.last())
    }
}

/// What the search tool answers for `hs`.
pub open spec fn search_report(hs: Seq<HitLine>) -> Seq<char> {
    if hs.len() == 0 {
        "No documents found matching the query."@
    } else {
        "Found "@ + decimal(hs.len()) + " result(s):\n\n"@ + hit_entries(hs)
    }
}

/// The search tool's answer for the hits found.
pub fn search_results_text(hits: &Vec<HitLine>) -> (r: String)
    ensures
        r@ == search_report(hits@),
{
    if hits.len() == 0 {
        return owned("No documents found matching the query.");
    }
    let mut out = owned("Found ");
    push_u64(&mut out, hits.len() as u64);
    push_str(&mut out, " result(s):\n\n");
    let ghost head = out@;
    let mut i: usize = 0;
    while i < hits.len()
        invariant
            i <= hits@.len(),
            head == "Found "@ + decimal(hits@.len()) + " result(s):\n\n"@,
            out@ == head + hit_entries(hits@.take(i as int)),
        decreases hits@.len() - i,
    {
        let h = &hits[i];
        push_u64(&mut out, (i + 1) as u64);
        push_str(&mut out, ". **");
        push_str(&mut out, h.path.as_str());
        push_str(&mut out, "** (score: ");
        push_str(&mut out, h.score.as_str());
        push_str(&mut out, ")\n   ");
        push_str(&mut out, h.snippet.as_str());
        push_str(&mut out, "\n\n");
        proof {
            assert(hits@.take(i + 1).drop_last() == hits@.take(i as int));
            assert(hits@.take(i + 1).last() == *h);
            assert(hits@.take(i + 1).len() == i + 1);
        }
        i = i + 1;
    }
    assert(hits@.take(hits@.len() as int) == hits@);
    out
}

/// What the file-reading tool answers for the extracted `text`: the text, or
/// its first 4000 characters and a note of its number of characters when it
/// is longer.
pub open spec fn read_report(text: Seq<char>) -> Seq<char> {
    if text.len() > 4000 {
        text.take(4000) + "...\n[truncated, "@ + decimal(text.len()) + " total characters]"@
    } else {
        text
    }
}

/// The file-reading tool's answer for the extracted text, cut to 4000
/// characters.
pub fn read_file_text(text: &str) -> (r: String)
    ensures
        r@ == read_report(text@),
{
    let v = chars_of(text);
    if v.len() > 4000 {
        let mut out = string_of_range(&v, 0, 4000);
        push_str(&mut out, "...\n[truncated, ");
        push_u64(&mut out, v.len() as u64);
        push_str(&mut out, " total characters]");
        assert(v@.subrange(0, 4000) == v@.take(4000));
        out
    } else {
        owned(text)
    }
}

/// What the calculator tool answers: the expression and its value.
pub fn calculation_text(expression: &str, value: &str) -> (r: String)
    ensures
        r@ == expression@ + " = "@ + value@,
{
    let mut out = owned(expression);
    push_str(&mut out, " = ");
    push_str(&mut out, value);
    out
}

} // verus!

verus! {

/// The query the file-listing tool runs: its SQL text and the values bound
/// to its `?` placeholders, in order.
pub struct ListQuery {
    pub sql: String,
    pub params: Vec<String>,
}

/// The `WHERE` clause of the file listing for the given filters.
pub open spec fn list_where(extension: Seq<char>, name_contains: Seq<char>) -> Seq<char> {
    if extension.len() > 0 && name_contains.len() > 0 {
        " WHERE extension = ? AND filename LIKE ?"@
    } else if extension.len() > 0 {
        " WHERE extension = ?"@
    } else if name_contains.len() > 0 {
        " WHERE filename LIKE ?"@
    } else {
        Seq::empty()
    }
}

/// The values bound to the placeholders of `list_where`.
pub open spec fn list_params(extension: Seq<char>, name_contains: Seq<char>) -> Seq<Seq<char>> {
    let like = "%"@ + name_contains + "%"@;
    if extension.len() > 0 && name_contains.len() > 0 {
        seq![extension, like]
    } else if extension.len() > 0 {
        seq![extension]
    } else if name_contains.len() > 0 {
        seq![like]
    } else {
        Seq::empty()
    }
}

/// Builds the file-listing query: files filtered by exact extension and by
/// a filename substring, each filter only when given, ordered by filename,
/// at most 50.
pub fn list_files_query(extension: &str, name_contains: &str) -> (q: ListQuery)
    ensures
        q.sql@ == "SELECT path, filename, extension, size_bytes FROM files"@
            + list_where(extension@, name_contains@) + " ORDER BY filename LIMIT 50"@,
        q.params@.map_values(|p: String| p@) == list_params(extension@, name_contains@),
{
    let mut sql = owned("SELECT path, filename, extension, size_bytes FROM files");
    let mut params: Vec<String> = Vec::new();
    let has_ext = !extension.is_empty();
    let has_name = !name_contains.is_empty();
    if has_ext && has_name {
        push_str(&mut sql, " WHERE extension = ? AND filename LIKE ?");
    } else if has_ext {
        push_str(&mut sql, " WHERE extension = ?");
    } else if has_name {
        push_str(&mut sql, " WHERE filename LIKE ?");
    } else {
        proof {
            assert(sql@ + Seq::<char>::empty() == sql@);
        }
    }
    push_str(&mut sql, " ORDER BY filename LIMIT 50");
    if has_ext {
        params.push(owned(extension));
    }
    if has_name {
        let mut like = owned("%");
        push_str(&mut like, name_contains);
        push_str(&mut like, "%");
        params.push(like);
    }
    assert(params@.map_values(|p: String| p@) =~= list_params(extension@, name_contains@));
    ListQuery { sql, params }
}

/// One row of the file listing.
pub struct FileRow {
    pub path: String,
    pub filename: String,
    pub extension: String,
    pub size_bytes: i64,
}

/// The listing line of one file.
pub open spec fn row_line(r: FileRow) -> Seq<char> {
    "- "@ + r.filename@ + " (."@ + r.extension@ + ", "@ + int_decimal(r.size_bytes as int) + " bytes) \u{2014} "@ + r.path@ + "\n"@
}

/// The listing lines of `rs`, in order.
pub open spec fn row_lines(rs: Seq<FileRow>) -> Seq<char>
    decreases rs.len(),
{
    if rs.len() == 0 {
        Seq::empty()
    } else {
        row_lines(rs.drop_last()) + row_line(rs.last())
    }
}

/// What the file-listing tool answers for the rows found.
pub open spec fn list_report(rs: Seq<FileRow>) -> Seq<char> {
    if rs.len() == 0 {
        "No files found matching the criteria."@
    } else {
        "Found "@ + decimal(rs.len()) + " file(s):\n"@ + row_lines(rs)
    }
}

/// The file-listing tool's answer for the rows found.
pub fn list_files_text(rows: &Vec<FileRow>) -> (r: String)
    ensures
        r@ == list_report(rows@),
{
    if rows.len() == 0 {
        return owned("No files found matching the criteria.");
    }
    let mut output = String::new();
    let mut i: usize = 0;
    while i < rows.len()
        invariant
            i <= rows@.len(),
            output@ == row_lines(rows@.take(i as int)),
        decreases rows@.len() - i,
    {
        let row = &rows[i];
        push_str(&mut output, "- ");
        push_str(&mut output, row.filename.as_str());
        push_str(&mut output, " (.");
        push_str(&mut output, row.extension.as_str());
        push_str(&mut output, ", ");
        push_i64(&mut output, row.size_bytes);
        push_str(&mut output, " bytes) \u{2014} ");
        push_str(&mut output, row.path.as_str());
        push_str(&mut output, "\n");
        proof {
            assert(rows@.take(i + 1).drop_last() == rows@.take(i as int));
            assert(rows@.take(i + 1).last() == *row);
        }
        i = i + 1;
    }
    assert(rows@.take(rows@.len() as int) == rows@);
    let mut out = owned("Found ");
    push_u64(&mut out, rows.len() as u64);
    push_str(&mut out, " file(s):\n");
    push_str(&mut out, output.as_str());
    out
}

} // verus!

verus! {

proof fn lemma_occurs_in_middle(a: Seq<char>, w: Seq<char>, b: Seq<char>, p: Seq<char>, j: int)
    requires
        occurs_at(w, p, j),
    ensures
        occurs_at(a + w + b, p, a.len() + j),
{
    let s = a + w + b;
    assert(s.subrange(a.len() + j, a.len() + j + p.len()) =~= w.subrange(j, j + p.len()));
}

/// Law: every filter given to the file listing is applied. A non-empty
/// extension puts `extension = ?` in the SQL and is bound first; a
/// non-empty name fragment puts `filename LIKE ?` in it and binds
/// `%fragment%` last; one value is bound per filter given, and with no
/// filter every file is listed.
pub proof fn law_list_filters_are_applied(extension: Seq<char>, name_contains: Seq<char>)
    ensures
        ({
            let sql = "SELECT path, filename, extension, size_bytes FROM files"@
                + list_where(extension, name_contains) + " ORDER BY filename LIMIT 50"@;
            let ps = list_params(extension, name_contains);
            &&& extension.len() > 0 ==> (exists|i: int| occurs_at(sql, "extension = ?"@, i)) && ps.len() > 0 && ps[0] == extension
            &&& name_contains.len() > 0 ==> (exists|i: int| occurs_at(sql, "filename LIKE ?"@, i))
                && ps.len() > 0 && ps.last() == "%"@ + name_contains + "%"@
            &&& ps.len() == (if extension.len() > 0 { 1int } else { 0 }) + (if name_contains.len() > 0 { 1int } else { 0 })
            &&& extension.len() == 0 && name_contains.len() == 0 ==> sql
                == "SELECT path, filename, extension, size_bytes FROM files ORDER BY filename LIMIT 50"@
        }),
{
    let head = "SELECT path, filename, extension, size_bytes FROM files"@;
    let tail = " ORDER BY filename LIMIT 50"@;
    let w = list_where(extension, name_contains);
    let ext_p = "extension = ?"@;
    let name_p = "filename LIKE ?"@;
    reveal_strlit("extension = ?");
    reveal_strlit("filename LIKE ?");
    reveal_strlit(" WHERE extension = ? AND filename LIKE ?");
    reveal_strlit(" WHERE extension = ?");
    reveal_strlit(" WHERE filename LIKE ?");
    reveal_strlit("SELECT path, filename, extension, size_bytes FROM files");
    reveal_strlit(" ORDER BY filename LIMIT 50");
    reveal_strlit("SELECT path, filename, extension, size_bytes FROM files ORDER BY filename LIMIT 50");
    if extension.len() > 0 && name_contains.len() > 0 {
        assert(w.subrange(7, 20) =~= ext_p);
        assert(w.subrange(25, 40) =~= name_p);
        lemma_occurs_in_middle(head, w, tail, ext_p, 7);
        lemma_occurs_in_middle(head, w, tail, name_p, 25);
    } else if extension.len() > 0 {
        assert(w.subrange(7, 20) =~= ext_p);
        lemma_occurs_in_middle(head, w, tail, ext_p, 7);
    } else if name_contains.len() > 0 {
        assert(w.subrange(7, 22) =~= name_p);
        lemma_occurs_in_middle(head, w, tail, name_p, 7);
    } else {
        assert(head + w + tail =~= "SELECT path, filename, extension, size_bytes FROM files ORDER BY filename LIMIT 50"@);
    }
}

} // verus!
