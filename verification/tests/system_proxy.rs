use talpa::system_proxy::{
    curlrc_block, hw_services, npmrc_block, proxy_url, remove_marked_block, with_block,
    without_block, zshrc_block,
};

#[test]
fn removes_block_from_middle() {
    let input = "before\n# --- talpa BEGIN ---\nproxy=socks5h://127.0.0.1:1080\n# --- talpa END ---\nafter\n";
    assert_eq!(remove_marked_block(input), "before\nafter\n");
}

#[test]
fn removes_block_at_start() {
    let input = "# --- talpa BEGIN ---\nproxy=socks5h://127.0.0.1:1080\n# --- talpa END ---\nafter\n";
    assert_eq!(remove_marked_block(input), "after\n");
}

#[test]
fn removes_block_at_end() {
    let input = "before\n# --- talpa BEGIN ---\nproxy=socks5h://127.0.0.1:1080\n# --- talpa END ---\n";
    assert_eq!(remove_marked_block(input), "before\n");
}

#[test]
fn no_marker_unchanged() {
    let input = "no proxy config here\n";
    assert_eq!(remove_marked_block(input), "no proxy config here\n");
}

#[test]
fn empty_file() {
    assert_eq!(remove_marked_block(""), "\n");
}

#[test]
fn marker_with_surrounding_whitespace() {
    let input = "before\n  # --- talpa BEGIN ---  \ndata\n  # --- talpa END ---  \nafter\n";
    assert_eq!(remove_marked_block(input), "before\nafter\n");
}

#[test]
fn crlf_lines_and_blank_lines_are_kept() {
    let input = "a\r\n\r\nb\n# --- talpa BEGIN ---\r\nx\n# --- talpa END ---\n\n\n";
    assert_eq!(remove_marked_block(input), "a\n\nb\n");
}

#[test]
fn two_blocks_are_both_removed() {
    let input = "1\n# --- talpa BEGIN ---\nx\n# --- talpa END ---\n2\n# --- talpa BEGIN ---\ny\n# --- talpa END ---\n3";
    assert_eq!(remove_marked_block(input), "1\n2\n3\n");
}

#[test]
fn unterminated_block_drops_the_rest() {
    let input = "keep\n# --- talpa BEGIN ---\nlost\nalso lost\n";
    assert_eq!(remove_marked_block(input), "keep\n");
}

#[test]
fn proxy_url_and_blocks() {
    assert_eq!(proxy_url(1080), "socks5h://127.0.0.1:1080");
    assert_eq!(
        npmrc_block(1080),
        "\n# --- talpa BEGIN ---\nproxy=socks5h://127.0.0.1:1080\nhttps-proxy=socks5h://127.0.0.1:1080\n# --- talpa END ---\n"
    );
    assert_eq!(
        curlrc_block(7),
        "\n# --- talpa BEGIN ---\nsocks5-hostname=127.0.0.1:7\n# --- talpa END ---\n"
    );
    assert_eq!(
        zshrc_block(10808),
        "\n# --- talpa BEGIN ---\nexport ALL_PROXY=socks5h://127.0.0.1:10808\nexport HTTPS_PROXY=socks5h://127.0.0.1:10808\nexport HTTP_PROXY=socks5h://127.0.0.1:10808\n# --- talpa END ---\n"
    );
}

#[test]
fn block_is_appended_once() {
    let block = curlrc_block(1080);
    let added = with_block("silent\n", &block).unwrap();
    assert_eq!(added, format!("silent\n{}", block));
    assert_eq!(with_block(&added, &block), None);
    assert_eq!(with_block("", &block).as_deref(), Some(block.as_str()));
}

#[test]
fn block_removal_undoes_append() {
    for content in ["", "a", "a\n", "x=1\ny=2", "line\n\n"] {
        for block in [npmrc_block(1080), curlrc_block(2), zshrc_block(65535)] {
            let added = with_block(content, &block).unwrap();
            assert_eq!(without_block(&added), Some(remove_marked_block(content)));
        }
    }
    assert_eq!(without_block("no block\n"), None);
}

#[test]
fn hardware_services_are_matched() {
    let hw = "\nHardware Port: Wi-Fi\nDevice: en0\nEthernet Address: aa\n\nHardware Port: Thunderbolt Bridge\nDevice: bridge0\n";
    let svc = "An asterisk (*) denotes that a network service is disabled.\nWi-Fi\n*Thunderbolt Bridge\nVPN (Corp)\n  \n";
    assert_eq!(hw_services(hw, svc), vec!["Wi-Fi".to_string(), "Thunderbolt Bridge".to_string()]);
    assert_eq!(hw_services(hw, ""), Vec::<String>::new());
    assert_eq!(hw_services("", svc), Vec::<String>::new());
    assert_eq!(hw_services(hw, "Wi-Fi\n"), Vec::<String>::new());
}

#[test]
fn removing_blocks_twice_changes_nothing() {
    let inputs = [
        "before\n# --- talpa BEGIN ---\nproxy=x\n# --- talpa END ---\nafter\n\n\n",
        "  # --- talpa END ---  \nkeep\n# --- talpa BEGIN ---\nlost",
        "",
        "\n\n\n",
        "a\n\nb",
    ];
    for input in inputs {
        let once = remove_marked_block(input);
        assert_eq!(remove_marked_block(&once), once);
        for line in once.lines() {
            assert_ne!(line.trim(), "# --- talpa BEGIN ---");
            assert_ne!(line.trim(), "# --- talpa END ---");
        }
    }
    assert_eq!(remove_marked_block("  # --- talpa END ---  \nkeep\n# --- talpa BEGIN ---\nlost"), "keep\n");
    assert_eq!(remove_marked_block("\n\n\n"), "\n");
}
