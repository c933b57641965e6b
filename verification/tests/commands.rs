use llmcache::commands::{
    index_create_command, index_info_command, knn_search_command, request_id, request_key,
    store_commands, Command, CommandArg,
};

fn text(s: &str) -> CommandArg {
    CommandArg::Text(s.to_string())
}

#[test]
fn request_id_drops_all_whitespace() {
    assert_eq!(request_id("Why is the sky blue?"), "Whyistheskyblue?");
    assert_eq!(request_id(" a\tb\nc\u{3000}d\u{00a0}e "), "abcde");
    assert_eq!(request_id(""), "");
}

#[test]
fn request_key_has_prefix() {
    assert_eq!(request_key("abc"), "request:abc");
}

#[test]
fn index_commands() {
    assert_eq!(
        index_info_command(),
        Command { name: "FT.INFO".to_string(), args: vec![text("idx:cache")] }
    );
    let create = index_create_command();
    assert_eq!(create.name, "FT.CREATE");
    let words: Vec<String> = create
        .args
        .iter()
        .map(|a| match a {
            CommandArg::Text(s) => s.clone(),
            CommandArg::Bytes(_) => panic!("unexpected binary argument"),
        })
        .collect();
    assert_eq!(
        words.join(" "),
        "idx:cache ON HASH PREFIX 1 request: SCHEMA prompt_vec VECTOR HNSW 6 TYPE FLOAT32 DIM 384 DISTANCE_METRIC COSINE"
    );
}

#[test]
fn knn_search_sends_query_bytes() {
    let cmd = knn_search_command(&[1.0f32.to_bits()]);
    assert_eq!(cmd.name, "FT.SEARCH");
    assert_eq!(cmd.args.len(), 13);
    assert_eq!(cmd.args[1], text("*=>[KNN 1 @prompt_vec $query_vec]"));
    assert_eq!(cmd.args[10], CommandArg::Bytes(1.0f32.to_le_bytes().to_vec()));
    assert_eq!(cmd.args[12], text("2"));
}

#[test]
fn store_writes_three_fields() {
    let key = "request:k".to_string();
    let cmds = store_commands(&key, &[0x0403_0201], "{\"q\":1}", "{\"r\":2}");
    assert_eq!(
        cmds,
        vec![
            Command {
                name: "HSET".to_string(),
                args: vec![text("request:k"), text("prompt_vec"), CommandArg::Bytes(vec![1, 2, 3, 4])]
            },
            Command {
                name: "HSET".to_string(),
                args: vec![text("request:k"), text("encoded_request"), text("{\"q\":1}")]
            },
            Command {
                name: "HSET".to_string(),
                args: vec![text("request:k"), text("encoded_response"), text("{\"r\":2}")]
            },
        ]
    );
}

#[test]
fn stored_keys_fall_under_the_indexed_prefix() {
    let create = index_create_command();
    let key = request_key(&request_id("a small blue bird"));
    let prefix = match &create.args[5] {
        CommandArg::Text(s) => s.clone(),
        CommandArg::Bytes(_) => panic!("unexpected binary argument"),
    };
    assert!(key.starts_with(&prefix));
    let writes = store_commands(&key, &[1, 2], "{}", "{}");
    assert_eq!(writes[0].args[1], create.args[7]);
    let search = knn_search_command(&[1, 2]);
    assert_eq!(search.args[0], create.args[0]);
    assert_eq!(search.args[4], create.args[7]);
}

#[test]
fn index_setup_only_when_probe_fails() {
    assert_eq!(llmcache::commands::index_setup_command(true), None);
    assert_eq!(
        llmcache::commands::index_setup_command(false),
        Some(index_create_command())
    );
}
