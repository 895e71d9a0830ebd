use anime_tui::app::sources::{
    check_image_url, fallback_queue, host_rank, is_direct_stream, is_oversized, keep_in_view,
    list_labels, needs_ytdl, parse_time_input, parse_ytdl_headers, pick_default_index,
    pre_resolve, rank_sources, referer_of, resolve_sources, take_stream, ytdl_args,
    PreparedSource,
};
use anime_tui::errors::Error;
use anime_tui::models::{PlayableSource, Quality};

fn src(label: &str) -> PreparedSource {
    PreparedSource { url: "https://x/v".into(), headers: vec![], label: Some(label.into()) }
}

fn offered(url: &str, label: &str) -> PlayableSource {
    PlayableSource {
        url: url.to_string(),
        quality: Quality::Unknown,
        label: Some(label.to_string()),
        http_headers: vec![("Referer".to_string(), "https://site/".to_string())],
        subtitles: vec![],
    }
}

#[test]
fn pick_default_matches_host_and_language() {
    let sources = vec![src("vidmoly (VOSTFR)"), src("sibnet (VF)"), src("vidmoly (VF)")];
    // Host + language both must match.
    assert_eq!(pick_default_index(&sources, "vidmoly (VF)"), 2);
    assert_eq!(pick_default_index(&sources, "sibnet (VF)"), 1);
    // No match → 0 (list is already reliability-ordered).
    assert_eq!(pick_default_index(&sources, "voe (VF)"), 0);
    assert_eq!(pick_default_index(&sources, ""), 0);
}

#[test]
fn host_rank_orders_working_hosts_first_voe_last() {
    // Reliability order: vidmoly < sibnet < unknown < voe.
    assert!(host_rank("vidmoly (VF)") < host_rank("sibnet (VF)"));
    assert!(host_rank("sibnet (VF)") < host_rank("mystery (VOSTFR)"));
    assert!(host_rank("mystery (VOSTFR)") < host_rank("voe (VOSTFR)"));

    // A mixed list sorts voe to the end, stably preserving other order.
    let mut labels = vec!["voe (VF)", "vidmoly (VF)", "sibnet (VF)"];
    labels.sort_by_key(|l| host_rank(l));
    assert_eq!(labels, vec!["vidmoly (VF)", "sibnet (VF)", "voe (VF)"]);
}

#[test]
fn parse_ytdl_headers_reads_json_map() {
    let h = parse_ytdl_headers(r#"{"Referer":"https://sibnet.ru/","User-Agent":"x"}"#).unwrap();
    assert!(h.iter().any(|(k, v)| k == "Referer" && v == "https://sibnet.ru/"));
    assert!(h.iter().any(|(k, v)| k == "User-Agent" && v == "x"));
    // Empty / non-object → None (fall back to keeping existing headers).
    assert!(parse_ytdl_headers("{}").is_none());
    assert!(parse_ytdl_headers("not json").is_none());
}

#[test]
fn referer_of_is_case_insensitive() {
    let h = vec![("referer".to_string(), "https://nakanime.tv/".to_string())];
    assert_eq!(referer_of(&h).as_deref(), Some("https://nakanime.tv/"));
    assert!(referer_of(&[]).is_none());
}

#[test]
fn keep_in_view_scrolls_only_when_needed() {
    // Selection within the window → offset unchanged.
    assert_eq!(keep_in_view(0, 3, 10, 100), 0);
    // Selection below the window → scroll down just enough.
    assert_eq!(keep_in_view(0, 12, 10, 100), 3); // 12 - 10 + 1
    // Selection above the window → scroll up to it.
    assert_eq!(keep_in_view(20, 5, 10, 100), 5);
    // Clamped so the last page doesn't scroll past the end.
    assert_eq!(keep_in_view(95, 99, 10, 100), 90);
    // Fewer items than the window → offset 0.
    assert_eq!(keep_in_view(0, 2, 10, 3), 0);
}

#[test]
fn keep_in_view_counts_at_least_one_row() {
    assert_eq!(keep_in_view(0, 4, 0, 10), 4);
    assert_eq!(keep_in_view(usize::MAX, usize::MAX, 1, 10), 9);
}

#[test]
fn sources_are_validated_and_ranked() {
    let list = vec![
        offered("https://voe.sx/e/1", "voe (VF)"),
        offered("javascript:alert(1)", "bad"),
        offered("https://vidmoly.biz/a", "vidmoly (VOSTFR)"),
        offered("file:///tmp/local.mp4", "local"),
        offered("https://vidmoly.biz/b", "vidmoly (VF)"),
        offered("https://sibnet.ru/c", "Sibnet"),
    ];
    let got = resolve_sources(list).unwrap();
    let urls: Vec<&str> = got.iter().map(|s| s.url.as_str()).collect();
    assert_eq!(
        urls,
        vec![
            "https://vidmoly.biz/a",
            "https://vidmoly.biz/b",
            "https://sibnet.ru/c",
            "file:///tmp/local.mp4",
            "https://voe.sx/e/1",
        ]
    );
    assert_eq!(got[0].headers, vec![("Referer".to_string(), "https://site/".to_string())]);
}

#[test]
fn validated_urls_are_normalized() {
    let got = resolve_sources(vec![offered("HTTPS://Example.COM", "x")]).unwrap();
    assert_eq!(got[0].url, "https://example.com/");
}

#[test]
fn no_valid_source_is_an_error() {
    let got = resolve_sources(vec![offered("ftp://host/x", "x")]);
    assert!(matches!(got, Err(Error::Resolve(ref m)) if m == "no valid sources returned"));
    assert!(matches!(rank_sources(vec![]), Err(Error::Resolve(_))));
}

#[test]
fn the_queue_starts_with_the_choice() {
    let sources = vec![src("a"), src("b"), src("c")];
    let labels = |v: &Vec<PreparedSource>| -> Vec<String> {
        v.iter().map(|s| s.label.clone().unwrap()).collect()
    };
    assert_eq!(labels(&fallback_queue(&sources, 0)), vec!["a", "b", "c"]);
    assert_eq!(labels(&fallback_queue(&sources, 1)), vec!["b", "a", "c"]);
    assert_eq!(labels(&fallback_queue(&sources, 2)), vec!["c", "a", "b"]);
}

#[test]
fn the_picker_shows_the_url_of_an_unlabelled_source() {
    let mut bare = src("x");
    bare.label = None;
    assert_eq!(list_labels(&vec![src("one"), bare]), vec!["one", "https://x/v"]);
}

#[test]
fn preferences_ignore_case_and_need_every_word() {
    let sources = vec![src("VOE (vf)"), src("Vidmoly (VF)")];
    assert_eq!(pick_default_index(&sources, "VIDMOLY"), 1);
    assert_eq!(pick_default_index(&sources, "  (vf)  voe "), 0);
    assert_eq!(pick_default_index(&sources, "vidmoly vostfr"), 0);
    assert_eq!(pick_default_index(&vec![], "vidmoly"), 0);
}

#[test]
fn direct_streams_need_no_resolving() {
    assert!(is_direct_stream("https://h/v.MP4?x=1#t"));
    assert!(is_direct_stream("https://h/master.m3u8"));
    assert!(is_direct_stream("https://h/a.mkv#.html"));
    assert!(!is_direct_stream("https://h/embed.html?f=.mp4"));
    assert!(!needs_ytdl("file:///tmp/x"));
    assert!(!needs_ytdl("https://h/v.mp4"));
    assert!(needs_ytdl("https://h/embed-1.html"));
}

#[test]
fn ytdl_gets_the_referer_before_the_url() {
    assert_eq!(
        ytdl_args("https://h/e", Some("https://r/")),
        vec![
            "--no-playlist",
            "--quiet",
            "--no-warnings",
            "-f",
            "best",
            "--print",
            "%(url)s",
            "--print",
            "%(http_headers)j",
            "--referer",
            "https://r/",
            "https://h/e",
        ]
    );
    assert_eq!(ytdl_args("https://h/e", None).last().unwrap(), "https://h/e");
    assert_eq!(ytdl_args("https://h/e", None).len(), 10);
}

#[test]
fn ytdl_output_gives_address_and_headers() {
    let out = b"  https://cdn/v.m3u8 \r\n{\"Referer\":\"https://h/\",\"n\":1}\n".to_vec();
    let (url, headers) = pre_resolve("https://h/e", Some(out));
    assert_eq!(url, "https://cdn/v.m3u8");
    assert_eq!(headers, Some(vec![("Referer".to_string(), "https://h/".to_string())]));

    let (url, headers) = pre_resolve("https://h/e", Some(b"https://cdn/v".to_vec()));
    assert_eq!((url.as_str(), headers), ("https://cdn/v", None));

    for bad in [None, Some(b"".to_vec()), Some(b"ERROR\n{}".to_vec()), Some(vec![0xff, 0x0a])] {
        let (url, headers) = pre_resolve("https://h/e", bad);
        assert_eq!((url.as_str(), headers), ("https://h/e", None));
    }
}

#[test]
fn stream_headers_win_over_site_headers() {
    let mut s = src("x");
    s.headers = vec![("Referer".to_string(), "site".to_string())];
    let kept = take_stream(s.clone(), ("u1".to_string(), None));
    assert_eq!(kept.url, "u1");
    assert_eq!(kept.headers[0].1, "site");
    let own = vec![("Referer".to_string(), "cdn".to_string())];
    let taken = take_stream(s, ("u2".to_string(), Some(own.clone())));
    assert_eq!(taken.headers, own);
    assert_eq!(taken.label.as_deref(), Some("x"));
}

#[test]
fn images_come_from_the_web() {
    assert!(check_image_url("https://img/p.jpg").is_ok());
    assert!(check_image_url("http://img/p.jpg").is_ok());
    assert_eq!(
        check_image_url("file:///etc/passwd"),
        Err(Error::InvalidUrl("file:///etc/passwd".to_string()))
    );
}

#[test]
fn posters_above_the_limit_are_oversized() {
    assert!(!is_oversized(900, 900));
    assert!(is_oversized(901, 1));
    assert!(is_oversized(1, 901));
}

#[test]
fn typed_times_have_up_to_three_parts() {
    let t = parse_time_input("90").unwrap();
    assert_eq!((t.hours, t.minutes, t.seconds.as_str()), (0, 0, "90"));
    let t = parse_time_input("1:30").unwrap();
    assert_eq!((t.hours, t.minutes, t.seconds.as_str()), (0, 1, "30"));
    let t = parse_time_input("1:02:30.5").unwrap();
    assert_eq!((t.hours, t.minutes, t.seconds.as_str()), (1, 2, "30.5"));
    let t = parse_time_input(" 4 : 5 ").unwrap();
    assert_eq!((t.hours, t.minutes, t.seconds.as_str()), (0, 4, "5"));
    assert!(parse_time_input("1:2:3:4").is_none());
    assert!(parse_time_input(":30").is_none());
    assert!(parse_time_input("x:30").is_none());
    assert!(parse_time_input("1::30").is_none());
    assert_eq!(parse_time_input("").unwrap().seconds, "");
}
