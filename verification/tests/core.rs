use dolphine::address::{socket_string, IpAddress};
use dolphine::browsers::{
    chrome_registry_key, firefox_registry_key, get_edge_windows, launch_command,
    unquoted_path, Browser, BrowserKind,
};
use dolphine::dolphine::{Dolphine, FileLookup, Source, StateManager, TypeSource};
use dolphine::expand::{
    async_block, expansion_plan, AttributeKind, Expansion, Refusal, binding_statement, has_input_param, inner_body, input_parameter,
    params_supported, prelude_statements, sync_block, wrapped_return_type, FnParam,
};
use dolphine::functions::FunctionStore;
use dolphine::protocol::{
    register_message, response_for, FunctionRequest, MessageType,
};
use dolphine::registry::{DirRegistry, IdCounter};
use dolphine::serve::{
    answer_type_of, content_type_for_path, embedded_file, embedded_index_page, extension_of,
    file_response, index_file_name, index_response, script_response, AnswerType,
};
use dolphine::text::{
    decimal_string, hex_string, last_piece, remove_char, split_string, string_of, trim_chars,
    utf8_text,
};
use include_dir::{Dir, DirEntry, File};
use rocket::http::ContentType;

fn text(a: IpAddress) -> String {
    a.to_text()
}

#[test]
fn browser_constructors_give_their_kind() {
    assert_eq!(Browser::chrome().kind(), BrowserKind::Chrome);
    assert_eq!(Browser::edge().kind(), BrowserKind::Edge);
    assert_eq!(Browser::firefox().kind(), BrowserKind::Firefox);
}

#[test]
fn edge_is_started_by_its_command() {
    assert_eq!(get_edge_windows(), Some("start msedge".to_string()));
}

#[test]
fn registry_keys_of_the_browsers() {
    assert_eq!(
        chrome_registry_key(),
        "SOFTWARE\\Microsoft\\Windows\\CurrentVersion\\App Paths\\chrome.exe"
    );
    assert_eq!(firefox_registry_key(), "SOFTWARE\\Mozilla\\Mozilla Firefox");
}

#[test]
fn registry_paths_lose_their_quotes() {
    assert_eq!(
        unquoted_path("\"C:\\Program Files\\Google\\chrome.exe\""),
        "C:\\Program Files\\Google\\chrome.exe"
    );
    assert_eq!(unquoted_path("a\"\"b\""), "ab");
    assert_eq!(unquoted_path(""), "");
    let once = unquoted_path("\"x\"");
    assert_eq!(unquoted_path(&once), once);
}

#[test]
fn launch_command_splits_on_spaces() {
    let c = launch_command("chrome.exe".to_string(), "127.0.0.1:8000");
    assert_eq!(c.program, "chrome.exe");
    assert_eq!(c.args, vec!["--app=http://127.0.0.1:8000".to_string(), "--new-window".to_string()]);
    let c = launch_command("p".to_string(), "a b");
    assert_eq!(
        c.args,
        vec!["--app=http://a".to_string(), "b".to_string(), "--new-window".to_string()]
    );
    assert_eq!(c.args.join(" "), "--app=http://a b --new-window");
    let c = launch_command("p".to_string(), "x ");
    assert_eq!(
        c.args,
        vec!["--app=http://x".to_string(), "".to_string(), "--new-window".to_string()]
    );
}

#[test]
fn ipv4_text_is_dotted_decimal() {
    assert_eq!(text(IpAddress::localhost_v4()), "127.0.0.1");
    assert_eq!(text(IpAddress::V4([255, 0, 10, 1])), "255.0.10.1");
    assert_eq!(text(IpAddress::V4([0, 0, 0, 0])), "0.0.0.0");
}

#[test]
fn ipv6_text_shortens_the_longest_zero_run() {
    assert_eq!(text(IpAddress::V6([0; 8])), "::");
    assert_eq!(text(IpAddress::V6([0, 0, 0, 0, 0, 0, 0, 1])), "::1");
    assert_eq!(text(IpAddress::V6([0x2001, 0xdb8, 0, 0, 0, 0, 0, 1])), "2001:db8::1");
    assert_eq!(text(IpAddress::V6([1, 0, 0, 2, 0, 0, 0, 3])), "1:0:0:2::3");
    assert_eq!(text(IpAddress::V6([1, 0, 0, 2, 0, 0, 3, 4])), "1::2:0:0:3:4");
    assert_eq!(text(IpAddress::V6([1, 0, 2, 3, 4, 5, 6, 7])), "1:0:2:3:4:5:6:7");
    assert_eq!(text(IpAddress::V6([1, 2, 3, 4, 5, 6, 7, 8])), "1:2:3:4:5:6:7:8");
    assert_eq!(text(IpAddress::V6([0xabcd, 0xef, 0, 0, 0, 0, 0, 0])), "abcd:ef::");
}

#[test]
fn ipv4_mapped_ipv6_text() {
    assert_eq!(
        text(IpAddress::V6([0, 0, 0, 0, 0, 0xffff, 0xc0a8, 0x0001])),
        "::ffff:192.168.0.1"
    );
}

#[test]
fn socket_text_joins_address_and_port() {
    assert_eq!(socket_string(&IpAddress::localhost_v4(), 8000), "127.0.0.1:8000");
    assert_eq!(socket_string(&IpAddress::V6([0, 0, 0, 0, 0, 0, 0, 1]), 80), "::1:80");
}

#[test]
fn numerals() {
    assert_eq!(decimal_string(0), "0");
    assert_eq!(decimal_string(65535), "65535");
    assert_eq!(decimal_string(u64::MAX), u64::MAX.to_string());
    assert_eq!(hex_string(0), "0");
    assert_eq!(hex_string(0xdb8), "db8");
    assert_eq!(hex_string(0xffff), "ffff");
}

#[test]
fn text_helpers() {
    assert_eq!(remove_char("a.b.c", '.'), "abc");
    assert_eq!(split_string("", ' '), vec!["".to_string()]);
    assert_eq!(split_string(" a  b", ' '), vec!["", "a", "", "b"]);
    assert_eq!(last_piece("a.b.c", '.'), "c");
    assert_eq!(last_piece("abc", '.'), "abc");
    assert_eq!(last_piece("abc.", '.'), "");
    let v: Vec<char> = " \t{ x }\n ".chars().collect();
    assert_eq!(string_of(&trim_chars(&v)), "{ x }");
    let v: Vec<char> = "\u{3000}ab\u{a0}".chars().collect();
    assert_eq!(string_of(&trim_chars(&v)), "ab");
    let v: Vec<char> = "   ".chars().collect();
    assert_eq!(string_of(&trim_chars(&v)), "");
}

#[test]
fn registering_a_function_makes_it_callable() {
    let mut store: FunctionStore<u32> = FunctionStore::new();
    assert_eq!(store.len(), 0);
    store.register("add".to_string(), 2, 10);
    store.register("neg".to_string(), 1, 20);
    assert_eq!(store.len(), 2);
    let e = store.get(&"add".to_string()).unwrap();
    assert_eq!((e.name.as_str(), e.args, e.handler), ("add", 2, 10));
    assert!(store.get(&"sub".to_string()).is_none());
}

#[test]
fn registering_a_name_again_replaces_it() {
    let mut store: FunctionStore<u32> = FunctionStore::new();
    store.register("f".to_string(), 1, 1);
    store.register("g".to_string(), 0, 2);
    store.register("f".to_string(), 3, 9);
    assert_eq!(store.len(), 2);
    let e = store.get(&"f".to_string()).unwrap();
    assert_eq!((e.args, e.handler), (3, 9));
    let e = store.get(&"g".to_string()).unwrap();
    assert_eq!((e.args, e.handler), (0, 2));
}

#[test]
fn each_function_is_announced_once() {
    let mut store: FunctionStore<u32> = FunctionStore::new();
    store.register("f".to_string(), 1, 1);
    store.register("g".to_string(), 0, 2);
    store.register("f".to_string(), 2, 3);
    let msgs = store.register_messages();
    assert_eq!(msgs.len(), 2);
    let mut seen: Vec<(String, usize)> = msgs.iter().map(|m| (m.function.clone(), m.args)).collect();
    seen.sort();
    assert_eq!(seen, vec![("f".to_string(), 2), ("g".to_string(), 0)]);
    assert!(msgs.iter().all(|m| m.actiontype == MessageType::ServerToClientRegister));
    let copy = store.clone();
    assert_eq!(copy.len(), 2);
    let f = copy.get(&"f".to_string()).unwrap();
    assert_eq!((f.args, f.handler), (2, 3));
    let g = copy.get(&"g".to_string()).unwrap();
    assert_eq!((g.args, g.handler), (0, 2));
}

#[test]
fn message_type_numbers() {
    assert_eq!(MessageType::ServerToClientResponse.code(), 0);
    assert_eq!(MessageType::ClientToServerRequest.code(), 1);
    assert_eq!(MessageType::ServerToClientRegister.code(), 2);
    for t in [
        MessageType::ServerToClientResponse,
        MessageType::ClientToServerRequest,
        MessageType::ServerToClientRegister,
    ] {
        assert_eq!(MessageType::from_code(t.code()), Some(t));
    }
    assert_eq!(MessageType::from_code(3), None);
}

#[test]
fn responses_echo_the_request_id() {
    let req = FunctionRequest {
        id: "abc".to_string(),
        actiontype: MessageType::ClientToServerRequest,
        args: "[1,2]".to_string(),
        function: "add".to_string(),
    };
    let ok = response_for(req.id.clone(), Ok("3".to_string()));
    assert_eq!((ok.id.as_str(), ok.data.as_str(), ok.success), ("abc", "3", true));
    assert_eq!(ok.actiontype, MessageType::ServerToClientResponse);
    let err = response_for(req.id.clone(), Err("bad input".to_string()));
    assert_eq!((err.id.as_str(), err.data.as_str(), err.success), ("abc", "bad input", false));
    let r = register_message("add".to_string(), 2);
    assert_eq!((r.function.as_str(), r.args), ("add", 2));
}

#[test]
fn window_ids_count_up() {
    let mut c = IdCounter::new();
    assert!(c.can_issue());
    assert_eq!(c.issue(), 0);
    assert_eq!(c.issue(), 1);
    assert_eq!(c.issue(), 2);
}

#[test]
fn folder_registry_reads_what_was_written() {
    let mut dirs: DirRegistry<&str> = DirRegistry::new();
    dirs.insert(1, "a");
    dirs.insert(2, "b");
    assert_eq!(dirs.get(1), Some(&"a"));
    dirs.insert(1, "c");
    assert_eq!(dirs.get(1), Some(&"c"));
    dirs.remove(1);
    assert_eq!(dirs.get(1), None);
    assert_eq!(dirs.get(2), Some(&"b"));
}

#[test]
fn a_new_window_has_the_default_settings() {
    let mut ids = IdCounter::new();
    let first: Dolphine<u8> = Dolphine::new(&mut ids);
    let d: Dolphine<u8> = Dolphine::new(&mut ids);
    assert_eq!(first.id(), 0);
    assert_eq!(d.id(), 1);
    assert_eq!(ids.issue(), 2);
    assert_eq!(d.webserver_port, 8000);
    assert_eq!(d.worker_count, 1);
    assert_eq!(d.serve_path, "dolphine.js");
    assert_eq!(d.websocket_port, 8080);
    assert_eq!(d.page_address(), "127.0.0.1:8000");
    assert_eq!(d.websocket_address(), "127.0.0.1:8080");
    assert_eq!(d.websocket_path(), "\"127.0.0.1:8080\"");
    assert_eq!(d.function_store().len(), 0);
    let sm = d.state_manager();
    assert!(matches!(sm.source, Source::Static(1)));
    assert_eq!(sm.serve_path, "dolphine.js");
    assert_eq!(sm.websocket_path, "\"127.0.0.1:8080\"");
}

#[test]
fn changed_ports_change_the_addresses() {
    let mut d: Dolphine<u8> = Dolphine::new(&mut IdCounter::new());
    d.webserver_port = 9000;
    d.websocket_port = 9001;
    d.websocket_addr = IpAddress::V4([10, 0, 0, 2]);
    assert_eq!(d.page_address(), "127.0.0.1:9000");
    assert_eq!(d.websocket_path(), "\"10.0.0.2:9001\"");
}

#[test]
fn folder_settings_move_the_window_between_sources() {
    let mut dirs: DirRegistry<&str> = DirRegistry::new();
    let mut ids = IdCounter::new();
    let mut other: Dolphine<u8> = Dolphine::new(&mut ids);
    let mut d: Dolphine<u8> = Dolphine::new(&mut ids);
    other.set_static_file_directory(&mut dirs, "other");
    d.set_static_file_directory(&mut dirs, "embedded");
    assert_eq!(dirs.get(1), Some(&"embedded"));
    assert!(matches!(d.state_manager().source, Source::Static(1)));
    d.set_local_file_directory(&mut dirs, "web/index.html".to_string());
    assert_eq!(dirs.get(1), None);
    assert_eq!(dirs.get(0), Some(&"other"));
    match d.state_manager().source {
        Source::Local(p) => assert_eq!(p, "web/index.html"),
        Source::Static(_) => panic!("expected a local folder"),
    }
    d.set_static_file_directory(&mut dirs, "again");
    assert_eq!(dirs.get(1), Some(&"again"));
    let _ = TypeSource::StaticFolder;
}

#[test]
fn window_functions_are_registered() {
    let mut d: Dolphine<u8> = Dolphine::new(&mut IdCounter::new());
    d.register_function("hello".to_string(), 5, 1);
    let e = d.function_store().get(&"hello".to_string()).unwrap();
    assert_eq!((e.args, e.handler), (1, 5));
}

#[test]
fn file_requests_find_their_source() {
    let sm = StateManager::new(Source::Static(4), "dolphine.js".to_string(), "\"x\"".to_string());
    assert!(sm.serves_script("dolphine.js"));
    assert!(!sm.serves_script("other.js"));
    assert!(matches!(sm.file_lookup("dolphine.js"), FileLookup::Script));
    assert!(matches!(sm.file_lookup("style.css"), FileLookup::EmbeddedIndex(4)));
    assert!(matches!(sm.index_lookup(), FileLookup::EmbeddedIndex(4)));
    let sm = StateManager::new(Source::Local("page.html".to_string()), "s.js".to_string(), "".to_string());
    match sm.file_lookup("a.css") {
        FileLookup::LocalFile(p) => assert_eq!(p, "page.html"),
        _ => panic!("expected the local file"),
    }
}

#[test]
fn files_are_typed_by_extension() {
    assert_eq!(extension_of("style.css"), "css");
    assert_eq!(extension_of("a.b.js"), "js");
    assert_eq!(extension_of("noext"), "noext");
    assert_eq!(extension_of(""), "");
    assert_eq!(content_type_for_path("style.css"), AnswerType::Known(ContentType::CSS));
    assert_eq!(content_type_for_path("INDEX.HTML"), AnswerType::Known(ContentType::HTML));
    assert_eq!(content_type_for_path("x.unknownext"), AnswerType::PlainText);
    assert_eq!(content_type_for_path("css"), AnswerType::Known(ContentType::CSS));
    let (t, b) = file_response("app.js", vec![1, 2, 3]);
    assert_eq!(t, AnswerType::Known(ContentType::JavaScript));
    let (t, _) = file_response("notes", vec![]);
    assert_eq!(t, AnswerType::PlainText);
    assert_eq!(b, vec![1, 2, 3]);
    assert_eq!(answer_type_of(None), AnswerType::PlainText);
    assert_eq!(answer_type_of(Some(ContentType::PNG)), AnswerType::Known(ContentType::PNG));
}

#[test]
fn index_and_script_answers() {
    assert_eq!(index_file_name(), "index.html");
    let (t, page) = index_response("<p>hi</p>".to_string());
    assert_eq!(t, AnswerType::Html);
    assert_eq!(page, "<p>hi</p>");
    let (t, body) = script_response(b"var dolphine = {};", "\"127.0.0.1:8080\"");
    assert_eq!(t, AnswerType::JavaScript);
    assert_eq!(
        String::from_utf8(body).unwrap(),
        "var dolphine = {};\ndolphine._socket = \"127.0.0.1:8080\";\ndolphine._init();"
    );
}

fn named(name: &str, ty: &str) -> FnParam {
    FnParam::Named { name: name.to_string(), type_head: ty.to_string() }
}

#[test]
fn binding_statement_reads_the_parameters() {
    let ps = vec![named("a", "u32"), named("b", "String")];
    assert!(params_supported(&ps));
    assert!(!params_supported(&vec![named("a", "u32"), FnParam::Unsupported]));
    assert_eq!(
        binding_statement(&ps),
        "let (a, b, ): (u32, String, ) = ::dolphine::serde_json::from_str(&input)?;"
    );
    assert!(!has_input_param(&ps));
    assert_eq!(
        prelude_statements(&ps),
        vec![
            "let (a, b, ): (u32, String, ) = ::dolphine::serde_json::from_str(&input)?;".to_string(),
            "drop(input);".to_string()
        ]
    );
    let ps = vec![named("input", "String")];
    assert!(has_input_param(&ps));
    assert_eq!(prelude_statements(&ps).len(), 1);
    assert_eq!(input_parameter(), "input: String");
    assert_eq!(wrapped_return_type(), "-> Result<String, ::dolphine::Report>");
}

#[test]
fn body_text_loses_its_braces() {
    assert_eq!(inner_body("  { let x = 1 ; x }  "), " let x = 1 ; x ");
    assert_eq!(inner_body("{}"), "");
    assert_eq!(inner_body("{"), "");
    assert_eq!(inner_body(""), "");
}

#[test]
fn wrapped_bodies() {
    let expected_sync = "{\n            let t = (|input: String| -> u32{\n        a + b\n        })(input);\n        match t {\n            Ok(v) => {\n                let r = ::dolphine::serde_json::to_string(&v);\n                match r {\n                    Ok(s) => return Ok(s),\n                    Err(e) => return Err(Report::new(e)),\n                }\n            },\n            Err(e) => return Err(e),\n        };\n        }";
    assert_eq!(sync_block("-> u32", "a + b"), expected_sync);
    let expected_async = "{\n        let t = (|| -> u8{\n    \n        ::dolphine::tokio::runtime::Builder::new_current_thread()\n            .enable_all()\n            .build()\n            .unwrap()\n            .block_on(async {\n                x\n            })\n        })();\n        match t {\n            Ok(v) => {\n                let r = ::dolphine::serde_json::to_string(&v);\n                match r {\n                    Ok(s) => return Ok(s),\n                    Err(e) => return Err(Report::new(e)),\n                }\n            },\n            Err(e) => return Err(e),\n        };\n    }";
    assert_eq!(async_block(false, "-> u8", "x"), expected_async);
    assert!(async_block(true, "", "x").contains("(|input: String| {"));
    assert!(async_block(true, "", "x").contains("})(input);"));
}

#[test]
fn utf8_decoding_accepts_exactly_valid_text() {
    assert_eq!(utf8_text(b"plain"), Some("plain".to_string()));
    assert_eq!(utf8_text("h\u{e9}llo \u{20ac} \u{1f600}".as_bytes()), Some("h\u{e9}llo \u{20ac} \u{1f600}".to_string()));
    assert_eq!(utf8_text(b""), Some(String::new()));
    assert_eq!(utf8_text(&[0xff]), None);
    assert_eq!(utf8_text(&[0xc3]), None);
    assert_eq!(utf8_text(&[0xc0, 0x80]), None);
    assert_eq!(utf8_text(&[0xed, 0xa0, 0x80]), None);
    assert_eq!(utf8_text(&[0xf4, 0x90, 0x80, 0x80]), None);
    assert_eq!(utf8_text(&[0x61, 0x80]), None);
}

static INDEX_ONLY: [DirEntry<'static>; 2] = [
    DirEntry::File(File::new("index.html", b"<p>hi</p>")),
    DirEntry::File(File::new("bad.bin", &[0xff, 0xfe])),
];
static FOLDER: Dir<'static> = Dir::new("", &INDEX_ONLY);
static BAD_ENTRIES: [DirEntry<'static>; 1] = [DirEntry::File(File::new("index.html", &[0xff]))];
static BAD_FOLDER: Dir<'static> = Dir::new("", &BAD_ENTRIES);

#[test]
fn embedded_folders_serve_their_files() {
    let mut dirs: DirRegistry<&'static Dir<'static>> = DirRegistry::new();
    assert_eq!(embedded_index_page(&dirs, 0), None);
    dirs.insert(0, &FOLDER);
    dirs.insert(1, &BAD_FOLDER);
    assert_eq!(embedded_index_page(&dirs, 0), Some("<p>hi</p>".to_string()));
    assert_eq!(embedded_file(&dirs, 0, "bad.bin"), Some(vec![0xff, 0xfe]));
    assert_eq!(embedded_file(&dirs, 0, "missing.txt"), None);
    assert_eq!(embedded_file(&dirs, 2, "index.html"), None);
    assert_eq!(embedded_index_page(&dirs, 1), None);
    assert_eq!(embedded_file(&dirs, 1, "index.html"), Some(vec![0xff]));
}

#[test]
fn attributes_plan_their_expansion() {
    let ps = vec![named("a", "u32")];
    match expansion_plan(AttributeKind::Function, false, &ps) {
        Expansion::Rewrite { has_params, prelude } => {
            assert!(has_params);
            assert_eq!(prelude, prelude_statements(&ps));
        }
        other => panic!("unexpected {:?}", other),
    }
    assert!(matches!(expansion_plan(AttributeKind::Function, false, &vec![]), Expansion::Unchanged));
    assert!(matches!(
        expansion_plan(AttributeKind::Function, true, &ps),
        Expansion::Refused(Refusal::AsyncUnderFunction)
    ));
    assert!(matches!(
        expansion_plan(AttributeKind::AsyncFunction, false, &ps),
        Expansion::Refused(Refusal::SyncUnderAsyncFunction)
    ));
    assert!(matches!(
        expansion_plan(AttributeKind::Function, false, &vec![FnParam::Unsupported]),
        Expansion::Refused(Refusal::UnsupportedParameter)
    ));
    match expansion_plan(AttributeKind::AsyncFunction, true, &vec![]) {
        Expansion::Rewrite { has_params, prelude } => {
            assert!(!has_params);
            assert!(prelude.is_empty());
        }
        other => panic!("unexpected {:?}", other),
    }
    assert_eq!(
        Refusal::AsyncUnderFunction.message(),
        "Function macro cannot be used on synchronous function! Use 'async_function' instead!"
    );
    assert_eq!(
        Refusal::SyncUnderAsyncFunction.message(),
        "async_function macro can only be used on synchronous functions! Use 'function' instead!"
    );
    assert_eq!(Refusal::UnsupportedParameter.message(), "");
}
