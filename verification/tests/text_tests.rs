use nvimcord::messages::InitializeRequest;
use nvimcord::messages::RequestMessage;
use nvimcord::messages::initialize;
use nvimcord::presence::presence_details;
use nvimcord::presence::presence_state_line;
use nvimcord::presence::u32_dec;
use nvimcord::remote::normalize_remote_url;
use nvimcord::router::MethodKind;
use nvimcord::router::is_blacklisted;
use nvimcord::router::method_kind;
use nvimcord::text::clamp;
use nvimcord::text::get_file_name;

#[test]
fn get_file_name_works() {
    let uri: lsp_types::Uri = "file:///home/vanilla/projects/nix-vim/README.md".parse().unwrap();
    assert_eq!("README.md", get_file_name(uri.path().as_str()).unwrap());
}

#[test]
fn get_file_name_without_slash_is_the_path() {
    assert_eq!("notes.txt", get_file_name("notes.txt").unwrap());
    assert_eq!("", get_file_name("dir/").unwrap());
}

#[test]
fn clamp_truncates_long_text_with_ellipsis() {
    assert_eq!("hello...", clamp("hello world".to_string(), 8));
    assert_eq!("hi", clamp("hi".to_string(), 8));
    assert_eq!("abc", clamp("abc".to_string(), 3));
    assert_eq!("...", clamp("abcdef".to_string(), 3));
}

#[test]
fn method_kind_sorts_the_known_methods() {
    assert!(matches!(method_kind("initialize"), MethodKind::Initialize));
    assert!(matches!(method_kind("textDocument/didOpen"), MethodKind::DidOpen));
    assert!(matches!(method_kind("textDocument/didChange"), MethodKind::DidChange));
    assert!(matches!(method_kind("shutdown"), MethodKind::Shutdown));
    assert!(matches!(method_kind("textDocument/didSave"), MethodKind::Other));
    assert!(matches!(method_kind(""), MethodKind::Other));
}

#[test]
fn blacklist_covers_the_transient_buffers() {
    assert!(is_blacklisted("cmp_docs"));
    assert!(is_blacklisted("TelescopeResults"));
    assert!(is_blacklisted("TelescopePrompt"));
    assert!(is_blacklisted("cmp_menu"));
    assert!(!is_blacklisted("rust"));
    assert!(!is_blacklisted(""));
}

#[test]
fn numbers_are_written_in_decimal() {
    assert_eq!("0", u32_dec(0));
    assert_eq!("7", u32_dec(7));
    assert_eq!("10", u32_dec(10));
    assert_eq!("1234", u32_dec(1234));
    assert_eq!("4294967295", u32_dec(u32::MAX));
}

#[test]
fn presence_lines_render_the_snapshot() {
    assert_eq!("Editing main.rs", presence_details(&Some("main.rs".to_string())));
    assert_eq!("Idling", presence_details(&None));
    assert_eq!("3 additions, 1 deletions in 2 files", presence_state_line(3, 1, 2));
}

#[test]
fn ssh_remote_becomes_https_link() {
    assert_eq!(
        "https://github.com/vanilla/nix-vim",
        normalize_remote_url("git@github.com:vanilla/nix-vim.git")
    );
}

#[test]
fn non_ssh_remote_is_kept() {
    assert_eq!(
        "https://github.com/vanilla/nix-vim.git",
        normalize_remote_url("https://github.com/vanilla/nix-vim.git")
    );
    assert_eq!("", normalize_remote_url(""));
}

#[test]
fn initialize_request_carries_its_fields() {
    let request = InitializeRequest {
        jsonrpc: "2.0".to_string(),
        id: 1,
        method: "initialize".to_string(),
    };
    assert_eq!("2.0", request.jsonrpc);
    assert_eq!(1, request.id);
    assert_eq!("initialize", request.method);
}

#[test]
fn initialize_has_no_reply_of_its_own() {
    let request = RequestMessage {
        method: "initialize".to_string(),
        params: "{}".to_string(),
    };
    assert!(initialize(&request).is_none());
}
