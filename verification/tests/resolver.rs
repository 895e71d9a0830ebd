use anime_tui::resolver::{
    find_media_url, packed_stream_url, sibnet_direct_url, unpack_packed_js, validate_stream_url,
    vidmoly_stream_url, voe_decode, voe_gate, voe_mirror_target, voe_solve_challenge,
    voe_stream_url,
};
use base64::Engine as _;

#[test]
fn find_media_url_extracts_hls_and_mp4() {
    assert_eq!(
        find_media_url(r#"sources:[{file:"https://cdn.vidmoly.to/hls/x/master.m3u8"}]"#).as_deref(),
        Some("https://cdn.vidmoly.to/hls/x/master.m3u8"),
    );
    assert_eq!(
        find_media_url(r#"file: 'https://cdn/x.mp4?token=1' "#).as_deref(),
        Some("https://cdn/x.mp4?token=1"),
    );
    assert!(find_media_url("no media here").is_none());
}

fn rot13(bytes: &[u8]) -> Vec<u8> {
    bytes
        .iter()
        .map(|&b| match b {
            b'a'..=b'z' => (b - b'a' + 13) % 26 + b'a',
            b'A'..=b'Z' => (b - b'A' + 13) % 26 + b'A',
            _ => b,
        })
        .collect()
}

/// Build a VOE-obfuscated payload from a JSON string (inverse of `voe_decode`),
/// mirroring the real algorithm confirmed against a live page.
fn voe_encode(json: &str) -> String {
    let b64 = base64::engine::general_purpose::STANDARD;
    let e = b64.encode(json.as_bytes()); // decode step 6: base64
    let rev: Vec<u8> = e.into_bytes().into_iter().rev().collect(); // step 5: reverse
    let plus3: Vec<u8> = rev.iter().map(|&x| x.wrapping_add(3)).collect(); // step 4: -3
    let b = b64.encode(&plus3); // step 3: base64
    String::from_utf8(rot13(b.as_bytes())).unwrap() // step 2: rot13 (self-inverse)
}

#[test]
fn unpack_packed_js_substitutes_tokens() {
    // }('0 1', 36, 2, 'hello|world'.split('|'))  →  "hello world"
    let src = r"eval(function(p,a,c,k,e,d){}('0 1',36,2,'hello|world'.split('|')))";
    assert_eq!(unpack_packed_js(src).as_deref(), Some("hello world"));
}

#[test]
fn unpack_is_single_pass_no_cascade() {
    // keyword[1] = "(0)" contains a bounded copy of token "0". Single-pass decode
    // emits it verbatim → "(0)". The old iterative decode re-expanded that inner
    // "0" into keyword[0]="X" → "(X)", and on real pages this cascade blew the
    // string up exponentially (7 KB → 7 MB) and hung. Guard against regressing.
    let src = r"eval(function(p,a,c,k,e,d){}('1',2,2,'X|(0)'.split('|')))";
    assert_eq!(unpack_packed_js(src).as_deref(), Some("(0)"));
}

#[test]
fn packed_stream_url_finds_hls_in_packed_js() {
    // Like real pages, the URL is assembled from separate tokens so no complete
    // ".m3u8" exists in the raw payload. Payload `0:"1.2"` with keywords
    // [file, https://cdn/x/master, m3u8] → `file:"https://cdn/x/master.m3u8"`.
    let src = r#"eval(function(p,a,c,k,e,d){}('0:"1.2"',36,3,'file|https://cdn/x/master|m3u8'.split('|')))"#;
    assert_eq!(
        packed_stream_url(src).as_deref(),
        Some("https://cdn/x/master.m3u8"),
    );
}

#[test]
fn voe_decode_roundtrips_real_transform() {
    let json = r#"{"source":"https://delivery.voe/hls/master.m3u8?t=abc"}"#;
    // Junk digraphs are stripped by the decoder, so sprinkling them in is a no-op.
    let mut payload = voe_encode(json);
    payload.insert_str(4, "@$");
    payload.push_str("#&");
    assert_eq!(voe_decode(&payload).as_deref(), Some(json));
}

#[test]
fn voe_stream_url_prefers_source_then_direct() {
    let json = r#"{"source":"https://cdn.voe/hls/master.m3u8?t=x","direct_access_url":"https://cdn.voe/f.mp4"}"#;
    let html = format!(r#"<script type="application/json">["{}"]</script>"#, voe_encode(json));
    assert_eq!(
        voe_stream_url(&html).as_deref(),
        Some("https://cdn.voe/hls/master.m3u8?t=x"),
    );
    // Falls back to the progressive mp4 when there's no HLS source.
    let json2 = r#"{"direct_access_url":"https://cdn.voe/f.mp4?t=y"}"#;
    let html2 = format!(r#"<script type="application/json">["{}"]</script>"#, voe_encode(json2));
    assert_eq!(voe_stream_url(&html2).as_deref(), Some("https://cdn.voe/f.mp4?t=y"));
}

#[test]
fn voe_mirror_target_extracts_stub_redirect() {
    let stub = r#"<script>window.location.href = 'https://othermirror.com/e/abc123';</script>"#;
    assert_eq!(
        voe_mirror_target(stub).as_deref(),
        Some("https://othermirror.com/e/abc123"),
    );
    assert!(voe_mirror_target("<html>no redirect</html>").is_none());
}

#[test]
fn voe_gate_parses_form_fields() {
    let html = r#"<form method="POST" action="https://m.com/e/xy" class="access-form">
        <input type="hidden" name="_token" value="CSRF123">
        <altcha-widget challenge="https://m.com/chal.json" hidefooter></altcha-widget>
        </form>"#;
    let g = voe_gate(html).expect("gate");
    assert_eq!(g.action, "https://m.com/e/xy");
    assert_eq!(g.token, "CSRF123");
    assert_eq!(g.challenge_url, "https://m.com/chal.json");
    // A normal page (no widget) is not a gate.
    assert!(voe_gate("<html>video</html>").is_none());
}

#[test]
fn voe_pow_solution_satisfies_challenge() {
    // cost=1 keeps the test fast; keyPrefix "00" ⇒ ~256 tries.
    let challenge = r#"{"parameters":{"algorithm":"PBKDF2/SHA-256","cost":1,"keyLength":32,"keyPrefix":"00","nonce":"aabbccdd","salt":"11223344"},"signature":"deadbeef"}"#;
    let b64 = voe_solve_challenge(challenge).expect("solve");
    let raw = base64::engine::general_purpose::STANDARD.decode(b64).unwrap();
    let v: serde_json::Value = serde_json::from_slice(&raw).unwrap();
    assert_eq!(v["challenge"]["signature"], "deadbeef");
    let counter = v["solution"]["counter"].as_u64().unwrap() as u32;
    // Re-derive and confirm the proof-of-work actually holds.
    let mut pw = vec![0xaa, 0xbb, 0xcc, 0xdd];
    pw.extend_from_slice(&counter.to_be_bytes());
    let mut out = [0u8; 32];
    ring::pbkdf2::derive(
        ring::pbkdf2::PBKDF2_HMAC_SHA256,
        std::num::NonZeroU32::new(1).unwrap(),
        &[0x11, 0x22, 0x33, 0x44],
        &pw,
        &mut out,
    );
    assert_eq!(out[0], 0x00, "derived key must start with keyPrefix");
}

#[test]
fn sibnet_extracts_relative_path() {
    let html = r#"<script>var player=new Playerjs({file:"..."});
        player.src([{src: "/v/e1/2233445.mp4", type:"video/mp4"}]);</script>"#;
    assert_eq!(
        sibnet_direct_url(html).as_deref(),
        Some("https://video.sibnet.ru/v/e1/2233445.mp4"),
    );
}

#[test]
fn sibnet_extracts_absolute_url() {
    let html = r#"player.src([{src: 'https://cdn.sibnet.ru/v/xy/9.mp4'}])"#;
    assert_eq!(
        sibnet_direct_url(html).as_deref(),
        Some("https://cdn.sibnet.ru/v/xy/9.mp4"),
    );
}

#[test]
fn sibnet_none_when_absent() {
    assert!(sibnet_direct_url("<html>no source here</html>").is_none());
}

#[test]
fn accepts_https() {
    assert!(validate_stream_url("https://cdn.example.com/v.m3u8").is_ok());
}

#[test]
fn rejects_non_http_schemes() {
    for bad in [
        "javascript:alert(1)",
        "data:text/html,x",
        "file:///etc/passwd",
        "ftp://example.com/x",
    ] {
        assert!(validate_stream_url(bad).is_err(), "should reject {bad}");
    }
}

#[test]
fn rejects_garbage() {
    assert!(validate_stream_url("not a url").is_err());
}

#[test]
fn an_encoded_payload_decodes_to_its_json() {
    let json = r#"{"source":"https://cdn.voe/é.m3u8"}"#;
    let payload = anime_tui::resolver::voe_encode(json);
    assert_eq!(payload, voe_encode(json));
    assert_eq!(voe_decode(&payload).as_deref(), Some(json));
}

#[test]
fn junk_between_all_characters_is_ignored() {
    let json = r#"{"a":1}"#;
    let junk = ["@$", "^^", "~@", "%?", "*~", "!!", "#&"];
    let mut payload = String::new();
    for (i, c) in voe_encode(json).chars().enumerate() {
        payload.push_str(junk[i % 7]);
        payload.push_str(junk[(i * 3 + 4) % 7]);
        payload.push(c);
    }
    assert_eq!(voe_decode(&payload).as_deref(), Some(json));
}

#[test]
fn vidmoly_pages_are_player_pages() {
    assert_eq!(
        vidmoly_stream_url(r#"sources:[{file:"https://cdn.vidmoly.to/x.m3u8"}]"#).as_deref(),
        Some("https://cdn.vidmoly.to/x.m3u8"),
    );
    assert!(vidmoly_stream_url("<html></html>").is_none());
}

#[test]
fn the_first_web_address_with_media_is_taken() {
    assert_eq!(
        find_media_url("poster.mp4 https://cdn/x.m3u8").as_deref(),
        Some("https://cdn/x.m3u8"),
    );
    assert_eq!(
        find_media_url("https://cdn/page 'http://cdn/a.mp4' https://cdn/b.m3u8").as_deref(),
        Some("http://cdn/a.mp4"),
    );
    assert!(find_media_url("httpd/x.mp4").is_none());
    assert!(find_media_url("https://cdn/x x.mp4").is_none());
    assert!(find_media_url("").is_none());
}

#[test]
fn only_a_quoted_mirror_is_followed() {
    assert_eq!(
        voe_mirror_target("http://a/e/1 'https://b/e/2'").as_deref(),
        Some("https://b/e/2"),
    );
    assert_eq!(
        voe_mirror_target(r#"x="https://c/v/1";y="http://d/e/3""#).as_deref(),
        Some("http://d/e/3"),
    );
    assert!(voe_mirror_target("http://a/e/1").is_none());
}

#[test]
fn text_outside_words_is_unpacked_verbatim() {
    let src = "eval(function(p,a,c,k,e,d){}('\u{e9}0 \\\u{65e5}1',36,2,'hello|w\u{f6}rld'.split('|')))";
    assert_eq!(unpack_packed_js(src).as_deref(), Some("\u{e9}hello \u{65e5}w\u{f6}rld"));
}

#[test]
fn a_validated_url_validates_to_itself() {
    for raw in ["HTTP://Ex\u{e4}mple.com:80/a b/../c?q='x'#f", "https://0x7f.1\\x%20y"] {
        let u = validate_stream_url(raw).unwrap();
        assert_ne!(u, raw);
        assert_eq!(validate_stream_url(&u).unwrap(), u);
    }
}

#[test]
fn the_last_address_before_the_extension_is_taken() {
    assert_eq!(
        find_media_url("https://a.com/r?u=https://cdn/x.m3u8").as_deref(),
        Some("https://cdn/x.m3u8"),
    );
    assert_eq!(
        find_media_url("http://a/page,https://b/v.mp4,http://c/w.mp4").as_deref(),
        Some("https://b/v.mp4,http://c/w.mp4"),
    );
    // The first extension has no address in its run.
    assert_eq!(
        find_media_url("http://a/page x.mp4 http://b?u=http://c/w.mp4'").as_deref(),
        Some("http://c/w.mp4"),
    );
}
