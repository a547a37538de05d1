use ai_agent_pc::ai::agent::{
    agent_step_payload, parse_tool_call, tool_result_text, AgentAction, AgentExecutor, AgentPhase, MAX_AGENT_STEPS,
};
use ai_agent_pc::ai::calc::{parse_arithmetic, Expr};
use ai_agent_pc::ai::chat::{
    chat_message_record, completion_messages, first_lookup, history_for_completion, load_chat_history,
    resolve_step, ProviderLookup, Resolution,
};
use ai_agent_pc::ai::provider::{ChatCompletionMessage, LlmClient};
use ai_agent_pc::ai::rag::RagPipeline;
use ai_agent_pc::ai::streaming::{parse_sse_line, SseEvent, SseStream};
use ai_agent_pc::ai::tools::{
    available_tools, calculation_text, list_files_query, list_files_text, read_file_text, search_results_text,
    tool_request, tools_prompt, FileRow, HitLine, ToolRequest,
};
use ai_agent_pc::db::models::ChatMessage;
use ai_agent_pc::json::{parse_json, JsonValue};

fn msg(role: &str, content: &str) -> ChatCompletionMessage {
    ChatCompletionMessage::new(role, content)
}

fn pairs(ms: &[ChatCompletionMessage]) -> Vec<(String, String)> {
    ms.iter().map(|m| (m.role.clone(), m.content.clone())).collect()
}

#[test]
fn sse_lines() {
    assert_eq!(parse_sse_line(r#"data: {"choices":[{"delta":{"content":"Hel"}}]}"#), Some("Hel".to_string()));
    assert_eq!(parse_sse_line(r#"data: {"choices":[{"delta":{"content":""}}]}"#), None);
    assert_eq!(parse_sse_line(r#"data: {"choices":[{"delta":{}}]}"#), None);
    assert_eq!(parse_sse_line("data: [DONE]"), None);
    assert_eq!(parse_sse_line(": keep-alive"), None);
    assert_eq!(parse_sse_line(r#"{"choices":[{"delta":{"content":"x"}}]}"#), None);
}

#[test]
fn sse_stream_tokens_and_done() {
    let mut s = SseStream::new();
    let ev = s.feed(b"data: {\"choices\":[{\"delta\":{\"content\":\"Hel\"}}]}\n\ndata: {\"choices\":[{\"del");
    assert_eq!(ev.len(), 1);
    assert!(matches!(&ev[0], SseEvent::Token(t) if t == "Hel"));
    let ev = s.feed(b"ta\":{\"content\":\"lo\"}}]}\n  data: [DONE]  \ndata: {\"choices\":[{\"delta\":{\"content\":\"late\"}}]}\n");
    assert_eq!(ev.len(), 2);
    assert!(matches!(&ev[0], SseEvent::Token(t) if t == "lo"));
    assert!(matches!(&ev[1], SseEvent::Done(f) if f == "Hello"));
    assert_eq!(s.full_content, "Hello");
}

#[test]
fn sse_stream_keeps_partial_line() {
    let mut s = SseStream::new();
    let ev = s.feed(b"data: {\"choices\":[{\"delta\":{\"content\":\"a\"}}]}");
    assert!(ev.is_empty());
    assert_eq!(s.full_content, "");
    let ev = s.feed(b"\n");
    assert_eq!(ev.len(), 1);
    assert_eq!(s.full_content, "a");
    assert_eq!(s.buffer, "");
}

fn eval(e: &Expr) -> Option<f64> {
    match e {
        Expr::Num(s) => s.parse::<f64>().ok(),
        Expr::Neg(a) => Some(-eval(a)?),
        Expr::Paren(a) => eval(a),
        Expr::Add(a, b) => Some(eval(a)? + eval(b)?),
        Expr::Sub(a, b) => Some(eval(a)? - eval(b)?),
        Expr::Mul(a, b) => Some(eval(a)? * eval(b)?),
        Expr::Div(a, b) => {
            let l = eval(a)?;
            let r = eval(b)?;
            if r == 0.0 { None } else { Some(l / r) }
        }
    }
}

fn print(e: &Expr) -> String {
    match e {
        Expr::Num(s) => s.clone(),
        Expr::Neg(a) => format!("-{}", print(a)),
        Expr::Paren(a) => format!("({})", print(a)),
        Expr::Add(a, b) => format!("{}+{}", print(a), print(b)),
        Expr::Sub(a, b) => format!("{}-{}", print(a), print(b)),
        Expr::Mul(a, b) => format!("{}*{}", print(a), print(b)),
        Expr::Div(a, b) => format!("{}/{}", print(a), print(b)),
    }
}

#[test]
fn arithmetic_precedence_and_associativity() {
    assert_eq!(eval(&parse_arithmetic("2 + 3 * 4").unwrap()), Some(14.0));
    assert_eq!(eval(&parse_arithmetic("(2 + 3) * 4").unwrap()), Some(20.0));
    assert_eq!(eval(&parse_arithmetic("10 - 4 - 3").unwrap()), Some(3.0));
    assert_eq!(eval(&parse_arithmetic("8 / 4 / 2").unwrap()), Some(1.0));
    assert_eq!(eval(&parse_arithmetic("--3").unwrap()), Some(3.0));
    assert_eq!(eval(&parse_arithmetic("1.5*2").unwrap()), Some(3.0));
    assert_eq!(eval(&parse_arithmetic("1/0").unwrap()), None);
    assert_eq!(eval(&parse_arithmetic("1.2.3").unwrap()), None);
    assert_eq!(eval(&parse_arithmetic("1 2").unwrap()), Some(12.0));
}

#[test]
fn arithmetic_rejects_malformed() {
    for s in ["", "2+", "(1", "1)", "a", "*3", "()"] {
        assert!(parse_arithmetic(s).is_none(), "{}", s);
    }
}

#[test]
fn arithmetic_prints_back() {
    for s in ["2 + 3 * 4", " ( 1 - -2 ) / 3.5 ", "--(7)", "1*2*3-4/5"] {
        let e = parse_arithmetic(s).unwrap();
        let stripped: String = s.chars().filter(|c| !c.is_whitespace()).collect();
        assert_eq!(print(&e), stripped);
    }
}

#[test]
fn tool_definitions_and_prompt() {
    let tools = available_tools();
    let names: Vec<&str> = tools.iter().map(|t| t.name).collect();
    assert_eq!(names, vec!["search_documents", "read_file", "list_files", "transform_document", "calculate"]);
    assert!(tools[3].parameters_schema.contains("\"required\":[\"path\",\"prompt\"]"));
    let p = tools_prompt();
    assert!(p.starts_with("You have the following tools available."));
    assert!(p.contains("- **calculate**: Evaluate a simple arithmetic expression. Supports +, -, *, / and parentheses.\n  Parameters: {"));
    assert!(p.ends_with("Only use tools when you need to look up information you don't already have.\n"));
    assert!(p.contains("<tool_call>{\"name\": \"tool_name\", \"args\": {\"param\": \"value\"}}</tool_call>\n\nAvailable tools:\n\n- **search_documents**"));
}

fn args(text: &str) -> JsonValue {
    parse_json(text).unwrap()
}

#[test]
fn tool_requests() {
    match tool_request("search_documents", &args(r#"{"query":"rust","max_results":3}"#)) {
        Ok(ToolRequest::SearchDocuments { query, max_results }) => {
            assert_eq!(query, "rust");
            assert_eq!(max_results, 3);
        }
        _ => panic!(),
    }
    match tool_request("search_documents", &args(r#"{"query":"rust"}"#)) {
        Ok(ToolRequest::SearchDocuments { max_results, .. }) => assert_eq!(max_results, 5),
        _ => panic!(),
    }
    assert_eq!(
        tool_request("search_documents", &args("{}")).err(),
        Some("search_documents requires a non-empty 'query' argument".to_string())
    );
    assert_eq!(tool_request("read_file", &args(r#"{"path":""}"#)).err(), Some("read_file requires a non-empty 'path' argument".to_string()));
    match tool_request("list_files", &args(r#"{"extension":"txt"}"#)) {
        Ok(ToolRequest::ListFiles { extension, name_contains }) => {
            assert_eq!(extension, "txt");
            assert_eq!(name_contains, "");
        }
        _ => panic!(),
    }
    assert!(matches!(tool_request("calculate", &args(r#"{"expression":"1+2"}"#)), Ok(ToolRequest::Calculate { .. })));
    assert_eq!(tool_request("calculate", &args(r#"{"expression":"1+"}"#)).err(), Some("Failed to evaluate expression: 1+".to_string()));
    assert_eq!(tool_request("calculate", &args("{}")).err(), Some("calculate requires a non-empty 'expression' argument".to_string()));
    assert_eq!(tool_request("delete_all", &args("{}")).err(), Some("Unknown tool: delete_all".to_string()));
}

#[test]
fn search_limit_must_be_positive() {
    for bad in [r#"{"query":"q","max_results":0}"#, r#"{"query":"q","max_results":-3}"#] {
        assert_eq!(
            tool_request("search_documents", &args(bad)).err(),
            Some("search_documents requires a positive 'max_results' argument".to_string())
        );
    }
    match tool_request("search_documents", &args(r#"{"query":"q","max_results":"ten"}"#)) {
        Ok(ToolRequest::SearchDocuments { max_results, .. }) => assert_eq!(max_results, 5),
        _ => panic!(),
    }
    assert_eq!(
        tool_request("search_documents", &args(r#"{"max_results":0}"#)).err(),
        Some("search_documents requires a non-empty 'query' argument".to_string())
    );
}

#[test]
fn transform_tool_requests() {
    match tool_request("transform_document", &args(r#"{"path":"/d.txt","prompt":"shorten"}"#)) {
        Ok(ToolRequest::TransformDocument { path, prompt }) => {
            assert_eq!(path, "/d.txt");
            assert_eq!(prompt, "shorten");
        }
        _ => panic!(),
    }
    assert_eq!(
        tool_request("transform_document", &args(r#"{"prompt":"shorten"}"#)).err(),
        Some("transform_document requires a non-empty 'path' argument".to_string())
    );
    assert_eq!(
        tool_request("transform_document", &args(r#"{"path":"/d.txt"}"#)).err(),
        Some("transform_document requires a non-empty 'prompt' argument".to_string())
    );
}

#[test]
fn read_file_cuts_characters() {
    let exact = "é".repeat(4000);
    assert_eq!(read_file_text(&exact), exact);
    let long = format!("{}z", "é".repeat(4000));
    assert_eq!(read_file_text(&long), format!("{}...\n[truncated, 4001 total characters]", "é".repeat(4000)));
}

fn shape(e: &Expr) -> String {
    match e {
        Expr::Num(t) => t.clone(),
        Expr::Neg(x) => format!("(-{})", shape(x)),
        Expr::Paren(x) => format!("[{}]", shape(x)),
        Expr::Add(a, b) => format!("({}+{})", shape(a), shape(b)),
        Expr::Sub(a, b) => format!("({}-{})", shape(a), shape(b)),
        Expr::Mul(a, b) => format!("({}*{})", shape(a), shape(b)),
        Expr::Div(a, b) => format!("({}/{})", shape(a), shape(b)),
    }
}

#[test]
fn whitespace_does_not_change_an_expression() {
    let spaced = parse_arithmetic(" 1 +\t2 ").map(|e| shape(&e));
    let tight = parse_arithmetic("1+2").map(|e| shape(&e));
    assert_eq!(spaced, Some("(1+2)".to_string()));
    assert_eq!(parse_arithmetic("2 3").map(|e| shape(&e)), Some("23".to_string()));
    assert!(spaced.is_some());
    assert_eq!(spaced, tight);
}

#[test]
fn tool_outputs() {
    assert_eq!(search_results_text(&vec![]), "No documents found matching the query.");
    let hits = vec![
        HitLine { path: "/a.txt".into(), score: "1.25".into(), snippet: "x <b>y</b>".into() },
        HitLine { path: "/b.md".into(), score: "0.50".into(), snippet: "".into() },
    ];
    assert_eq!(
        search_results_text(&hits),
        "Found 2 result(s):\n\n1. **/a.txt** (score: 1.25)\n   x <b>y</b>\n\n2. **/b.md** (score: 0.50)\n   \n\n"
    );
    assert_eq!(list_files_text(&vec![]), "No files found matching the criteria.");
    let rows = vec![FileRow { path: "/d/a.txt".into(), filename: "a.txt".into(), extension: "txt".into(), size_bytes: 12 }];
    assert_eq!(list_files_text(&rows), "Found 1 file(s):\n- a.txt (.txt, 12 bytes) \u{2014} /d/a.txt\n");
    assert_eq!(calculation_text("1+2", "3"), "1+2 = 3");
    let short = "abc";
    assert_eq!(read_file_text(short), "abc");
    let long = "x".repeat(4005);
    assert_eq!(read_file_text(&long), format!("{}...\n[truncated, 4005 total characters]", "x".repeat(4000)));
}

#[test]
fn list_query_filters() {
    let q = list_files_query("", "");
    assert_eq!(q.sql, "SELECT path, filename, extension, size_bytes FROM files ORDER BY filename LIMIT 50");
    assert!(q.params.is_empty());
    let q = list_files_query("md", "plan");
    assert_eq!(q.sql, "SELECT path, filename, extension, size_bytes FROM files WHERE extension = ? AND filename LIKE ? ORDER BY filename LIMIT 50");
    assert_eq!(q.params, vec!["md".to_string(), "%plan%".to_string()]);
    let q = list_files_query("", "plan");
    assert_eq!(q.sql, "SELECT path, filename, extension, size_bytes FROM files WHERE filename LIKE ? ORDER BY filename LIMIT 50");
}

#[test]
fn tool_call_parsing() {
    let (name, a) = parse_tool_call("I will search.\n<tool_call> {\"name\": \"search_documents\", \"args\": {\"query\": \"tax\"}} </tool_call>").unwrap();
    assert_eq!(name, "search_documents");
    assert_eq!(a.get("query").and_then(|v| v.as_str()), Some("tax"));
    let (name, a) = parse_tool_call("<tool_call>{\"name\":\"list_files\"}</tool_call>").unwrap();
    assert_eq!(name, "list_files");
    assert!(matches!(a, JsonValue::Object(ref p) if p.is_empty()));
    assert!(parse_tool_call("no call here").is_none());
    assert!(parse_tool_call("</tool_call><tool_call>{\"name\":\"x\"}").is_none());
    assert!(parse_tool_call("<tool_call>not json</tool_call>").is_none());
    assert!(parse_tool_call("<tool_call>{\"args\":{}}</tool_call>").is_none());
}

#[test]
fn agent_runs_tools_then_answers() {
    let (mut run, action) = AgentExecutor::start("What is 2+2?");
    assert!(matches!(action, AgentAction::CallModel));
    assert_eq!(run.messages.len(), 2);
    assert_eq!(run.messages[0].role, "system");
    assert!(run.messages[0].content.starts_with("You are an intelligent agent that can use tools"));
    assert!(run.messages[0].content.ends_with("provide your final answer directly without any tool calls."));
    let call = "<tool_call>{\"name\":\"calculate\",\"args\":{\"expression\":\"2+2\"}}</tool_call>".to_string();
    match run.on_response(call.clone()) {
        AgentAction::RunTool { name, step, .. } => {
            assert_eq!(name, "calculate");
            assert_eq!(step, 1);
        }
        _ => panic!(),
    }
    assert!(matches!(run.on_tool_result(Ok("2+2 = 4".to_string())), AgentAction::CallModel));
    assert_eq!(run.step, 1);
    assert_eq!(run.messages[2].content, call);
    assert_eq!(run.messages[3].role, "tool");
    assert_eq!(run.messages[3].content, "[Tool: calculate] Result:\n2+2 = 4");
    assert!(matches!(run.on_response("It is 4.".to_string()), AgentAction::StreamAnswer));
    assert!(matches!(run.phase, AgentPhase::Answered));
    assert_eq!(run.messages.len(), 5);
    assert_eq!(run.answer_context().len(), 4);
}

#[test]
fn agent_forces_an_answer_after_max_steps() {
    let (mut run, _) = AgentExecutor::start("loop");
    let call = "<tool_call>{\"name\":\"read_file\",\"args\":{}}</tool_call>".to_string();
    for i in 0..MAX_AGENT_STEPS {
        assert!(matches!(run.on_response(call.clone()), AgentAction::RunTool { .. }));
        let a = run.on_tool_result(Err("boom".to_string()));
        if i + 1 < MAX_AGENT_STEPS {
            assert!(matches!(a, AgentAction::CallModel));
        } else {
            assert!(matches!(a, AgentAction::StreamAnswer));
            assert!(matches!(run.phase, AgentPhase::Exhausted));
        }
    }
    assert_eq!(run.messages[3].content, "[Tool: read_file] Result:\nTool error: boom");
    assert_eq!(run.messages.len(), 2 + 2 * MAX_AGENT_STEPS);
    let context = run.answer_context();
    assert_eq!(context.len(), 2 + 2 * MAX_AGENT_STEPS);
    assert_eq!(context.last().unwrap().role, "tool");
    assert_eq!(tool_result_text(&Err("x".to_string())), "Tool error: x");
}

#[test]
fn provider_fallbacks() {
    assert!(matches!(first_lookup(Some(3)), ProviderLookup::ById(3)));
    assert!(matches!(first_lookup(None), ProviderLookup::Default));
    assert!(matches!(resolve_step(ProviderLookup::ById(3), Some(7)), Resolution::Found(7)));
    assert!(matches!(resolve_step::<i32>(ProviderLookup::ById(3), None), Resolution::Next(ProviderLookup::Default)));
    assert!(matches!(resolve_step::<i32>(ProviderLookup::Default, None), Resolution::Next(ProviderLookup::First)));
    match resolve_step::<i32>(ProviderLookup::First, None) {
        Resolution::Missing(m) => assert_eq!(m, "No LLM provider configured. Please add a provider in Settings."),
        _ => panic!(),
    }
}

fn stored(role: &str, content: &str) -> ChatMessage {
    ChatMessage {
        id: Some(1),
        session_id: 1,
        role: role.into(),
        content: content.into(),
        attached_files: "[]".into(),
        tool_calls: "[]".into(),
        created_at: "".into(),
    }
}

#[test]
fn chat_histories() {
    let stored_msgs = vec![stored("system", "s"), stored("tool", "t"), stored("user", "hi"), stored("assistant", "")];
    let h = load_chat_history(&stored_msgs);
    assert_eq!(pairs(&h), vec![("system".into(), "s".into()), ("user".into(), "hi".into()), ("assistant".into(), "".into())]);
    let prior = history_for_completion(h, "hi");
    assert_eq!(pairs(&prior), vec![("system".to_string(), "s".to_string())]);
    let prior = history_for_completion(vec![msg("user", "a"), msg("assistant", "b")], "c");
    assert_eq!(prior.len(), 2);
    let all = completion_messages(&prior, "c");
    assert_eq!(pairs(&all)[2], ("user".to_string(), "c".to_string()));
    let m = chat_message_record(9, "user", "hello", &["/a.txt".to_string(), "b \"q\"".to_string()]);
    assert_eq!(m.attached_files, r#"["/a.txt","b \"q\""]"#);
    let m = chat_message_record(9, "user", "x", &["C:\\d\ta\u{1}\u{1f}\n\u{8}\u{c}\ré/".to_string()]);
    assert_eq!(m.attached_files, "[\"C:\\\\d\\ta\\u0001\\u001f\\n\\b\\f\\ré/\"]");
    assert_eq!(chat_message_record(1, "user", "x", &[]).attached_files, "[]");
    assert_eq!(m.tool_calls, "[]");
    assert_eq!(m.session_id, 9);
    assert!(m.id.is_none());
}

#[test]
fn provider_requests() {
    assert_eq!(LlmClient::completions_url("http://localhost:11434/v1//"), "http://localhost:11434/v1/chat/completions");
    assert_eq!(LlmClient::completions_url("https://api.openai.com/v1"), "https://api.openai.com/v1/chat/completions");
    assert_eq!(LlmClient::authorization(""), None);
    assert_eq!(LlmClient::authorization("sk-1"), Some("Bearer sk-1".to_string()));
    let j = parse_json(r#"{"choices":[{"message":{"role":"assistant","content":"Hi!"}}]}"#).unwrap();
    assert_eq!(LlmClient::completion_content(&j), "Hi!");
    assert_eq!(LlmClient::completion_content(&parse_json("{}").unwrap()), "");
    assert_eq!(LlmClient::api_error("404 Not Found", "nope"), "LLM API returned 404 Not Found: nope");
}

#[test]
fn rag_prompts() {
    assert_eq!(RagPipeline::hit_context("/a", Some("text"), "snip"), Some("--- Document: /a ---\ntext\n".to_string()));
    assert_eq!(RagPipeline::hit_context("/a", None, "snip"), Some("--- Document: /a ---\nsnip\n".to_string()));
    assert_eq!(RagPipeline::hit_context("/a", None, ""), None);
    let long = "y".repeat(2001);
    assert_eq!(RagPipeline::hit_context("/a", Some(&long), ""), Some(format!("--- Document: /a ---\n{}...\n", "y".repeat(2000))));
    assert!(RagPipeline::system_prompt(&vec![]).contains("no relevant documents were found"));
    let p = RagPipeline::system_prompt(&vec!["A".to_string(), "B".to_string()]);
    assert!(p.contains("specific information.\n\nA\nB\nIf the documents"));
    let ms = RagPipeline::messages(&vec![], "q");
    assert_eq!(ms[1].content, "q");
}

#[test]
fn json_model() {
    let v = parse_json(r#"{"a":[1,-2,3.5,"s",null,true],"b":{"c":9223372036854775807}}"#).unwrap();
    let a = v.get("a").unwrap();
    assert_eq!(a.at(0).and_then(|x| x.as_i64()), Some(1));
    assert_eq!(a.at(1).and_then(|x| x.as_i64()), Some(-2));
    assert_eq!(a.at(2).and_then(|x| x.as_i64()), None);
    assert_eq!(a.at(3).and_then(|x| x.as_str()), Some("s"));
    assert!(a.at(6).is_none());
    assert_eq!(v.get("b").unwrap().get("c").unwrap().as_i64(), Some(i64::MAX));
    assert!(parse_json("{bad").is_none());
}

fn stream_events(chunks: &[&[u8]]) -> (Vec<(bool, String)>, String) {
    let mut s = SseStream::new();
    let mut out = Vec::new();
    for c in chunks {
        for e in s.feed(c) {
            out.push(match e {
                SseEvent::Token(t) => (false, t),
                SseEvent::Done(f) => (true, f),
            });
        }
    }
    (out, s.full_content.clone())
}

#[test]
fn sse_split_points_do_not_matter() {
    let body: &[u8] = b"data: {\"choices\":[{\"delta\":{\"content\":\"Hel\"}}]}\n\ndata: {\"choices\":[{\"delta\":{\"content\":\"lo\"}}]}\n: ping\ndata: [DONE]\n";
    let whole = stream_events(&[body]);
    assert_eq!(whole.0, vec![(false, "Hel".to_string()), (false, "lo".to_string()), (true, "Hello".to_string())]);
    for cut in 1..body.len() {
        let (a, b) = body.split_at(cut);
        assert_eq!(stream_events(&[a, b]), whole, "split at {}", cut);
    }
}

#[test]
fn sse_split_at_character_boundaries() {
    let body = "data: {\"choices\":[{\"delta\":{\"content\":\"h\u{e9}\"}}]}\ndata: [DONE]\ndata: {\"choices\":[{\"delta\":{\"content\":\"late\"}}]}\n";
    let whole = stream_events(&[body.as_bytes()]);
    assert_eq!(whole.0, vec![(false, "h\u{e9}".to_string()), (true, "h\u{e9}".to_string())]);
    for cut in 1..body.len() {
        if !body.is_char_boundary(cut) {
            continue;
        }
        let (a, b) = body.split_at(cut);
        let mut s = SseStream::new();
        let mut out = Vec::new();
        for c in [a.as_bytes(), b.as_bytes()] {
            let mut done = false;
            for e in s.feed(c) {
                match e {
                    SseEvent::Token(t) => out.push((false, t)),
                    SseEvent::Done(f) => {
                        out.push((true, f));
                        done = true;
                    }
                }
            }
            if done {
                break;
            }
        }
        assert_eq!(out, whole.0, "split at {}", cut);
    }
}

#[test]
fn agent_step_payloads() {
    let a = args(r#"{"path":"/x.txt","n":-2,"deep":{"k":[true,null]}}"#);
    let p = agent_step_payload(4, 2, "read_file", &a, &Err("gone".to_string()));
    assert_eq!(p.session_id, 4);
    assert_eq!(p.step, 2);
    assert_eq!(p.tool_name, "read_file");
    assert_eq!(p.tool_args, r#"{"deep":{"k":[true,null]},"n":-2,"path":"/x.txt"}"#);
    assert_eq!(p.tool_result, "Tool error: gone");
    let q = agent_step_payload(4, 3, "calculate", &args("{}"), &Ok("1+1 = 2".to_string()));
    assert_eq!(q.tool_args, "{}");
    assert_eq!(q.tool_result, "1+1 = 2");
}
