use std::sync::Arc;

use emmylua_dap::breakpoints::{BreakpointTable, SourceBreakpoint};
use emmylua_dap::cache::{
    DebuggerCache, DebuggerCacheItem, DebuggerCacheRef, DebuggerVariable, EvalQuery, Expansion,
};
use emmylua_dap::cli::{log_file_stem, parse_log_level, LogLevel, NoneableString};
use emmylua_dap::correlate::{kind_key_of, route, EvalSeq, Route, WaiterTable};
use emmylua_dap::error::DebuggerError;
use emmylua_dap::frame::{encode_frame, parse_code_line, FrameReader};
use emmylua_dap::handlers::{
    action_request, capabilities, disconnect_events, launch_target, port_from_int, settle,
    threads, EmmyNewDebugArguments, Reply, StepCommand,
};
use emmylua_dap::proto::{
    BreakNotify, DebugAction, EvalRsp, LogNotify, Message, MessageCMD, Stack, ValueType,
    Variable,
};
use emmylua_dap::session::{eval_query, eval_request, DebuggerData, IdeEvent};
use emmylua_dap::wire::{cmd_from_field, decode_cmd, WireError};

fn var(name: &str, value: &str, value_type: ValueType, cache_id: i32) -> Variable {
    Variable {
        name: name.to_string(),
        name_type: ValueType::TSTRING,
        value: value.to_string(),
        value_type,
        value_type_name: String::new(),
        cache_id,
        children: None,
    }
}

fn bp(line: i64) -> SourceBreakpoint {
    SourceBreakpoint { line, condition: None, hit_condition: None, log_message: None }
}

fn node(id: i64, v: Variable, parent: i64) -> DebuggerCacheItem {
    DebuggerCacheItem::Variable(Arc::new(DebuggerCacheRef::new(
        id,
        DebuggerVariable { var: v, parent_ref_id: parent },
    )))
}

#[test]
fn initialize_reports_capabilities() {
    let c = capabilities();
    assert!(c.supports_evaluate_for_hovers);
    assert!(c.support_terminate_debuggee);
    assert!(c.supports_log_points);
    assert!(c.supports_conditional_breakpoints);
}

#[test]
fn launch_as_listener_sends_init_breakpoints_ready() {
    let args = EmmyNewDebugArguments {
        host: "127.0.0.1".to_string(),
        port: 9966,
        ext: vec![".lua".to_string()],
        ide_connect_debugger: false,
        source_paths: vec![],
    };
    let target = launch_target(&args);
    assert_eq!(target.host, "127.0.0.1");
    assert_eq!(target.port, 9966);
    assert!(!target.connect);

    let mut data = DebuggerData::new();
    data.apply_launch(&args);
    assert_eq!(data.extension, vec![".lua".to_string()]);
    let msgs = data.connect_messages(args.ext.clone());
    assert_eq!(msgs.len(), 3);
    let kinds: Vec<MessageCMD> = msgs.iter().map(|m| m.get_cmd()).collect();
    assert_eq!(
        kinds,
        vec![MessageCMD::InitReq, MessageCMD::AddBreakPointReq, MessageCMD::ReadyReq]
    );
    match &msgs[0] {
        Message::InitReq(q) => {
            assert_eq!(q.cmd, 1);
            assert_eq!(q.emmy_helper, "");
            assert_eq!(q.ext, vec![".lua".to_string()]);
        }
        _ => panic!("first message is not the init request"),
    }
    match &msgs[1] {
        Message::AddBreakPointReq(q) => {
            assert_eq!(q.cmd, 5);
            assert!(q.clear);
            assert!(q.break_points.is_empty());
        }
        _ => panic!("second message is not the breakpoint request"),
    }
    let mut wire = Vec::new();
    for m in &msgs {
        wire.extend(encode_frame(m.get_cmd(), b"{}"));
    }
    assert_eq!(wire, b"1\n{}\n5\n{}\n3\n{}\n".to_vec());
}

#[test]
fn localhost_means_ipv6_loopback() {
    let args = EmmyNewDebugArguments {
        host: "localhost".to_string(),
        port: 9966,
        ext: vec![],
        ide_connect_debugger: true,
        source_paths: vec![],
    };
    let t = launch_target(&args);
    assert_eq!(t.host, "[::1]");
    assert!(t.connect);
    assert_eq!(t.timeout_secs, 5);
}

#[test]
fn breakpoint_hit_then_stack_scopes_variables() {
    let mut data = DebuggerData::new();
    let (acks, send) = data.set_breakpoints(Some("/a.lua".to_string()), Some(vec![bp(10)]));
    assert!(send);
    assert_eq!(acks.len(), 1);
    assert_eq!(acks[0].line, 10);
    assert!(acks[0].verified);
    let req = data.add_breakpoint_req();
    assert_eq!(req.break_points.len(), 1);
    assert_eq!(req.break_points[0].file, "/a.lua");
    assert_eq!(req.break_points[0].line, 10);

    let stack = Stack {
        file: "/a.lua".to_string(),
        line: 10,
        function_name: "f".to_string(),
        level: 0,
        local_variables: vec![var("x", "1", ValueType::TNUMBER, 0)],
        upvalue_variables: vec![],
    };
    let ev = data.on_notification(Message::BreakNotify(BreakNotify { stacks: vec![stack] }));
    assert_eq!(
        ev,
        Some(IdeEvent::Stopped { reason: "breakpoint".to_string(), thread_id: 1 })
    );

    let frames = data.stack_frames();
    assert_eq!(frames.len(), 1);
    assert_eq!(frames[0].level, 0);
    assert_eq!(frames[0].function_name, "f");
    assert_eq!(frames[0].line, 10);
    assert_eq!(frames[0].file, "/a.lua");

    let scopes = data.scopes(0);
    assert_eq!(scopes.len(), 2);
    assert_eq!(scopes[0].name, "Variables");
    assert_eq!(scopes[1].name, "Environment");
    assert_ne!(scopes[0].variables_reference, scopes[1].variables_reference);
    assert_ne!(scopes[0].variables_reference, 0);
    assert_ne!(scopes[1].variables_reference, 0);

    match data.variables(scopes[0].variables_reference) {
        Expansion::Ready(vars) => {
            assert_eq!(vars.len(), 1);
            assert_eq!(vars[0].name, "x");
            assert_eq!(vars[0].value, "1");
            assert_eq!(vars[0].variables_reference, 0);
        }
        Expansion::Evaluate(_) => panic!("a scope needs no evaluation"),
    }
    match data.variables(scopes[1].variables_reference) {
        Expansion::Ready(vars) => assert!(vars.is_empty()),
        Expansion::Evaluate(_) => panic!("an environment scope needs no evaluation"),
    }
}

#[test]
fn evaluate_table_and_expand() {
    let mut data = DebuggerData::new();
    let q = eval_query("t".to_string(), Some(0));
    assert_eq!(q.expr, "t");
    assert_eq!(q.cache_id, 0);
    assert_eq!(q.depth, 1);
    assert_eq!(q.frame_id, 0);

    let out = data.evaluate_result(EvalRsp {
        seq: 0,
        success: true,
        error: String::new(),
        value: var("t", "table: 0x1", ValueType::TTABLE, 42),
    });
    let r = out.variables_reference;
    assert_ne!(r, 0);

    let query = match data.variables(r) {
        Expansion::Evaluate(q) => q,
        Expansion::Ready(_) => panic!("a table needs an evaluation"),
    };
    assert_eq!(query.expr, "t");
    assert_eq!(query.cache_id, 42);
    assert_eq!(query.depth, 2);
    assert_eq!(query.frame_id, -1);

    let mut answer = var("t", "table: 0x1", ValueType::TTABLE, 42);
    answer.children = Some(vec![var("k", "v", ValueType::TSTRING, 0)]);
    let vars = data.variables_evaluated(
        r,
        Some(EvalRsp { seq: 1, success: true, error: String::new(), value: answer }),
    );
    assert_eq!(vars.len(), 1);
    assert_eq!(vars[0].name, "k");
    assert_eq!(vars[0].value, "\"v\"");
    assert_eq!(vars[0].variables_reference, 0);
}

#[test]
fn failed_evaluation_reports_the_error() {
    let mut data = DebuggerData::new();
    let out = data.evaluate_result(EvalRsp {
        seq: 0,
        success: false,
        error: "attempt to index nil".to_string(),
        value: var("", "", ValueType::TNIL, 0),
    });
    assert_eq!(out.result, "attempt to index nil");
    assert_eq!(out.variables_reference, 0);
    assert_eq!(out.kind_label, Some("string".to_string()));
    assert!(eval_query("x".to_string(), None).frame_id == -1);
}

#[test]
fn failed_expansion_gives_no_children() {
    let mut data = DebuggerData::new();
    let out = data.evaluate_result(EvalRsp {
        seq: 0,
        success: true,
        error: String::new(),
        value: var("t", "table", ValueType::TTABLE, 3),
    });
    let vars = data.variables_evaluated(out.variables_reference, None);
    assert!(vars.is_empty());
    match data.variables(999) {
        Expansion::Ready(v) => assert!(v.is_empty()),
        Expansion::Evaluate(_) => panic!("unknown references have no children"),
    }
}

#[test]
fn cancellation_answers_cancelled_and_keeps_the_eval_waiter() {
    let mut cancels: WaiterTable<bool> = WaiterTable::new();
    let mut evals: WaiterTable<&str> = WaiterTable::new();
    let mut seq = EvalSeq::new();
    let s = seq.next_seq();
    assert_eq!(s, 0);
    evals.register(s, "variables handler");
    cancels.register(17, false);
    assert!(cancels.contains(17));
    let r: Reply<u32> = settle(true, Ok(5));
    assert!(matches!(r, Reply::Cancelled));
    assert!(evals.contains(s));
    assert_eq!(evals.take(s), Some("variables handler"));
    assert_eq!(cancels.take(17), Some(false));
    assert!(!cancels.contains(17));
    assert!(matches!(settle::<u32>(false, Err("boom".to_string())), Reply::Failed(e) if e == "boom"));
    assert!(matches!(settle(false, Ok(3u32)), Reply::Succeeded(3)));
}

#[test]
fn disconnect_emits_output_then_terminated() {
    let events = disconnect_events();
    assert_eq!(
        events,
        vec![
            IdeEvent::Output { output: "Disconnected\n".to_string() },
            IdeEvent::Terminated
        ]
    );
    assert_eq!(DebuggerError::NotConnected.message(), "not connected");
    assert_eq!(
        DebuggerError::ConnectionError("refused".to_string()).message(),
        "Connection Error: refused"
    );
    let req = action_request(StepCommand::Pause);
    assert_eq!(req.cmd, 9);
    assert_eq!(req.action, DebugAction::Break);
}

#[test]
fn path_skips_groups() {
    let mut cache = DebuggerCache::new();
    let a = cache.allocate_cache_id();
    cache.add_cache(node(a, var("a", "table", ValueType::TTABLE, 1), 0));
    let g = cache.allocate_cache_id();
    cache.add_cache(node(g, var("(metatable)", "", ValueType::GROUP, 0), a));
    let b = cache.allocate_cache_id();
    let leaf = DebuggerVariable { var: var("b", "2", ValueType::TNUMBER, 0), parent_ref_id: g };
    cache.add_cache(node(b, var("b", "2", ValueType::TNUMBER, 0), g));
    assert_eq!(leaf.get_expr(&cache), "a.b");
}

#[test]
fn group_children_come_without_evaluation() {
    let mut cache = DebuggerCache::new();
    let id = cache.allocate_cache_id();
    let mut group = var("g", "", ValueType::GROUP, 0);
    let mut child = var("1", "x", ValueType::TSTRING, 0);
    child.name_type = ValueType::TNUMBER;
    group.children = Some(vec![child]);
    let item = node(id, group, 0);
    cache.add_cache(item.clone());
    match item.compute_children(&mut cache) {
        Expansion::Ready(v) => {
            assert_eq!(v.len(), 1);
            assert_eq!(v[0].name, "[1]");
            assert_eq!(v[0].value, "\"x\"");
            assert_eq!(v[0].variables_reference, 0);
        }
        Expansion::Evaluate(_) => panic!("a group is expanded as it came"),
    }
}

#[test]
fn projection_marks_expandable_values() {
    let mut cache = DebuggerCache::new();
    let id = cache.allocate_cache_id();
    let item = node(id, var("u", "userdata", ValueType::TUSERDATA, 0), 0);
    let p = item.to_dap_variable();
    assert_eq!(p.variables_reference, id);
    assert_eq!(p.value, "userdata");
    assert_eq!(item.get_ref_id(), id);
}

#[test]
fn cache_entries_persist() {
    let mut cache = DebuggerCache::new();
    let first = cache.allocate_cache_id();
    cache.add_cache(node(first, var("a", "1", ValueType::TNUMBER, 0), 0));
    for _ in 0..5 {
        let id = cache.allocate_cache_id();
        cache.add_cache(node(id, var("b", "2", ValueType::TNUMBER, 0), first));
    }
    match cache.get_cache(first) {
        Some(DebuggerCacheItem::Variable(v)) => {
            assert_eq!(v.id, first);
            assert_eq!(v.item.var.name, "a");
        }
        _ => panic!("the first entry is gone"),
    }
    assert!(cache.get_cache_ref(first).is_some());
    assert!(cache.get_cache(1000).is_none());
}

#[test]
fn cache_ids_strictly_increase() {
    let mut cache = DebuggerCache::new();
    let a = cache.allocate_cache_id();
    let b = cache.allocate_cache_id();
    let c = cache.allocate_cache_id();
    assert_eq!(a, 1);
    assert!(b > a && c > b);
    assert_eq!(cache.add_cache(node(a, var("a", "1", ValueType::TNUMBER, 0), 0)), 4);
}

#[test]
fn clearing_a_file_keeps_other_files() {
    let mut table = BreakpointTable::new();
    let acks = table.set_breakpoints(&"/a.lua".to_string(), &vec![bp(1), bp(2), bp(2)]);
    assert_eq!(acks.iter().map(|a| a.id).collect::<Vec<_>>(), vec![0, 1, 2]);
    assert_eq!(table.all().len(), 2);
    table.set_breakpoints(&"/b.lua".to_string(), &vec![bp(7)]);
    let none = table.set_breakpoints(&"/a.lua".to_string(), &vec![]);
    assert!(none.is_empty());
    let left = table.all();
    assert_eq!(left.len(), 1);
    assert_eq!(left[0].file, "/b.lua");
    assert_eq!(left[0].line, 7);
}

#[test]
fn frames_round_trip_through_the_reader() {
    let body = br#"{"seq":3,"success":true}"#;
    let bytes = encode_frame(MessageCMD::EvalRsp, body);
    assert_eq!(&bytes[..3], b"12\n");
    let mut reader = FrameReader::new();
    let (a, b) = bytes.split_at(5);
    let first = reader.push_bytes(a);
    assert!(first.is_empty());
    let second = reader.push_bytes(b);
    assert_eq!(second.len(), 1);
    assert_eq!(second[0].code, 12);
    assert_eq!(second[0].body, body.to_vec());
}

#[test]
fn reader_drops_lines_that_are_not_codes() {
    let mut reader = FrameReader::new();
    let frames = reader.push_bytes(b"garbage\n13\n{}\n-4\nx\n");
    assert_eq!(frames.len(), 2);
    assert_eq!(frames[0].code, 13);
    assert_eq!(frames[0].body, b"{}".to_vec());
    assert_eq!(frames[1].code, -4);
    assert_eq!(frames[1].body, b"x".to_vec());
}

#[test]
fn code_lines_parse_like_i32() {
    assert_eq!(parse_code_line(b"17"), Some(17));
    assert_eq!(parse_code_line(b"+5"), Some(5));
    assert_eq!(parse_code_line(b"-2147483648"), Some(i32::MIN));
    assert_eq!(parse_code_line(b"2147483647"), Some(i32::MAX));
    assert_eq!(parse_code_line(b"2147483648"), None);
    assert_eq!(parse_code_line(b"99999999999999999999"), None);
    assert_eq!(parse_code_line(b""), None);
    assert_eq!(parse_code_line(b"-"), None);
    assert_eq!(parse_code_line(b"1a"), None);
}

#[test]
fn command_codes_round_trip() {
    for code in 1..=17i64 {
        let cmd = MessageCMD::from_code(code);
        assert_ne!(cmd, MessageCMD::Unknown);
        assert_eq!(cmd.code() as i64, code);
    }
    assert_eq!(MessageCMD::from_code(0), MessageCMD::Unknown);
    assert_eq!(MessageCMD::from_code(18), MessageCMD::Unknown);
    assert_eq!(MessageCMD::EvalReq.get_rsp_cmd(), MessageCMD::EvalRsp);
    assert_eq!(MessageCMD::BreakNotify.get_rsp_cmd(), MessageCMD::Unknown);
    assert_eq!(ValueType::from_code(9), ValueType::GROUP);
    assert_eq!(ValueType::from_code(200), ValueType::TNIL);
    assert_eq!(DebugAction::from_code(2), DebugAction::StepOver);
    assert_eq!(DebugAction::StepOut.code(), 4);
    assert_eq!(kind_key_of(MessageCMD::LogNotify), 17);
}

#[test]
fn eval_reply_reaches_only_its_waiter() {
    let mut t: WaiterTable<u32> = WaiterTable::new();
    t.register(1, 10);
    t.register(2, 20);
    assert_eq!(t.take(2), Some(20));
    assert_eq!(t.get(1), Some(&10));
    assert!(!t.contains(2));
}

#[test]
fn unmatched_eval_reply_disturbs_nobody() {
    let mut t: WaiterTable<u32> = WaiterTable::new();
    t.register(1, 10);
    assert_eq!(t.take(5), None);
    assert_eq!(t.take(1), Some(10));
}

#[test]
fn decoding_reads_the_cmd_member() {
    assert_eq!(decode_cmd(br#"{"cmd": 13, "stacks": []}"#), Ok(MessageCMD::BreakNotify));
    assert_eq!(decode_cmd(br#"{"cmd": 99}"#), Err(WireError::UnknownCommand(99)));
    assert_eq!(decode_cmd(br#"{"seq": 1}"#), Err(WireError::MissingCmd));
    assert_eq!(decode_cmd(br#"{"cmd": "12"}"#), Err(WireError::MissingCmd));
    assert_eq!(decode_cmd(b"not json"), Err(WireError::MissingCmd));
    assert_eq!(cmd_from_field(Some(0)), Err(WireError::UnknownCommand(0)));
}

#[test]
fn log_levels_ignore_case() {
    assert_eq!(parse_log_level("DEBUG"), Ok(LogLevel::Debug));
    assert_eq!(parse_log_level("Warn"), Ok(LogLevel::Warn));
    assert_eq!(
        parse_log_level("loud"),
        Err("Invalid log level: 'loud'. Please choose 'error', 'warn', 'info', 'debug'".to_string())
    );
    let p: LogLevel = "error".parse().unwrap();
    assert_eq!(p, LogLevel::Error);
}

#[test]
fn none_path_means_no_file() {
    assert!(NoneableString::parse("NoNe").0.is_none());
    assert_eq!(NoneableString::parse("/tmp/log").as_deref(), Some("/tmp/log"));
    assert_eq!(NoneableString::parse("").as_deref(), Some(""));
}

#[test]
fn ports_must_fit() {
    assert_eq!(port_from_int(9966), Ok(9966));
    assert!(port_from_int(-1).is_err());
    assert!(port_from_int(65536).is_err());
}

#[test]
fn notifications_become_events() {
    let mut data = DebuggerData::new();
    let ev = data.on_notification(Message::LogNotify(LogNotify { message: "hi".to_string() }));
    assert_eq!(ev, Some(IdeEvent::Output { output: "hi".to_string() }));
    assert!(threads()[0].name == "Main Thread" && threads()[0].id == 1);
}

#[test]
fn source_paths_are_tried_by_extension() {
    let mut data = DebuggerData::new();
    data.extension = vec![".lua".to_string(), ".txt".to_string()];
    assert_eq!(
        data.candidate_paths(&"@main".to_string()),
        vec!["main.lua".to_string(), "main.txt".to_string()]
    );
    assert_eq!(
        data.candidate_paths(&"@a/b.lua".to_string()),
        vec!["a/b.lua".to_string(), "a/b.lua.lua".to_string(), "a/b.lua.txt".to_string()]
    );
    assert!(data.cached_path(&"@main".to_string()).is_none());
    data.remember_path("@main".to_string(), "main.lua".to_string());
    assert_eq!(data.cached_path(&"@main".to_string()), Some(Some("main.lua".to_string())));
}

#[test]
fn log_file_names_join_path_parts() {
    assert_eq!(log_file_stem(""), "emmylua_dap_log");
    assert_eq!(log_file_stem("/"), "emmylua_dap_log");
    assert_eq!(log_file_stem("/var/log/dap"), "var_log_dap");
    assert_eq!(log_file_stem("C:\\logs\\\\x"), "C_logs_x");
    assert_eq!(log_file_stem("plain"), "plain");
}

#[test]
fn replies_are_routed_by_seq_or_kind() {
    assert_eq!(route(MessageCMD::EvalRsp, 7), Route::EvalReply(7));
    assert_eq!(route(MessageCMD::BreakNotify, 7), Route::ByKind(13));
    assert_eq!(route(MessageCMD::InitRsp, 0), Route::ByKind(2));
}

#[test]
fn eval_requests_carry_the_query() {
    let q = EvalQuery { expr: "a.b".to_string(), cache_id: 42, depth: 2, frame_id: -1 };
    let r = eval_request(3, q);
    assert_eq!(r.cmd, 11);
    assert_eq!(r.seq, 3);
    assert_eq!(r.expr, "a.b");
    assert_eq!(r.cache_id, 42);
    assert_eq!(r.depth, 2);
    assert_eq!(r.stack_level, -1);
    assert!(r.value.is_none() && r.set_value.is_none());
}

#[test]
fn resetting_a_line_replaces_its_breakpoint() {
    let mut table = BreakpointTable::new();
    let mut with_condition = bp(4);
    with_condition.condition = Some("x > 1".to_string());
    table.set_breakpoints(&"/c.lua".to_string(), &vec![bp(4), with_condition]);
    let all = table.all();
    assert_eq!(all.len(), 1);
    assert_eq!(all[0].condition, Some("x > 1".to_string()));
    assert_eq!(table.next_value(), 2);
}

#[test]
fn start_hook_requests_are_answered_by_start_hook_responses() {
    assert_eq!(MessageCMD::StartHookReq.get_rsp_cmd(), MessageCMD::StartHookRsp);
    assert_eq!(MessageCMD::InitReq.get_rsp_cmd(), MessageCMD::InitRsp);
    assert_eq!(MessageCMD::LogNotify.get_rsp_cmd(), MessageCMD::Unknown);
}

#[test]
fn unsuccessful_expansion_answer_gives_no_children() {
    let mut data = DebuggerData::new();
    let mut table = var("t", "table", ValueType::TTABLE, 5);
    table.children = Some(vec![var("old", "1", ValueType::TNUMBER, 0)]);
    let out = data.evaluate_result(EvalRsp {
        seq: 0,
        success: true,
        error: String::new(),
        value: table,
    });
    let r = out.variables_reference;
    let before = data.cache.next_value();
    let mut answer = var("t", "table", ValueType::TTABLE, 5);
    answer.children = Some(vec![var("k", "v", ValueType::TSTRING, 0)]);
    let vars = data.variables_evaluated(
        r,
        Some(EvalRsp { seq: 1, success: false, error: "gone".to_string(), value: answer }),
    );
    assert!(vars.is_empty());
    assert_eq!(data.cache.next_value(), before);
}
