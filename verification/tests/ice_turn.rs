use webhangin::ice::{get_ice_servers, IceServerConfig};
use webhangin::media::{audio_codecs, transport_policy, video_codecs};
use webhangin::player::default_character_type;
use webhangin::turn::{
    default_ice_servers, servers_from_xirsys, xirsys_basic_auth, xirsys_channel,
    xirsys_creds_present, xirsys_or_fallback, xirsys_request_url, XirsysIceUrls,
};

#[test]
fn builtin_catalogue_has_twelve_groups() {
    let servers = get_ice_servers();
    assert_eq!(servers.len(), 12);
    assert_eq!(servers[0].urls, vec!["stun:stun.l.google.com:19302".to_string()]);
    assert!(servers[0].username.is_none());
    assert!(servers[0].credential.is_none());
    for s in &servers[..9] {
        assert_eq!(s.urls.len(), 1);
        assert!(s.urls[0].starts_with("stun:"));
        assert!(s.username.is_none() && s.credential.is_none());
    }
    assert_eq!(servers[9].urls.len(), 3);
    assert_eq!(servers[9].username.as_deref(), Some("openrelayproject"));
    assert_eq!(servers[9].credential.as_deref(), Some("openrelayproject"));
    assert_eq!(servers[10].urls, vec!["turn:freestun.net:3478".to_string()]);
    assert_eq!(servers[10].username.as_deref(), Some("free"));
    assert_eq!(servers[11].urls[1], "turn:turnix.io:443?transport=tcp");
    assert_eq!(servers[11].username.as_deref(), Some("guest"));
    assert_eq!(servers[11].credential.as_deref(), Some("password"));
}

#[test]
fn fallback_list_is_three_public_stun_servers() {
    let fallback = default_ice_servers();
    assert_eq!(
        fallback,
        vec![IceServerConfig {
            urls: vec![
                "stun:stun.l.google.com:19302".to_string(),
                "stun:stun1.l.google.com:19302".to_string(),
                "stun:stun.cloudflare.com:3478".to_string(),
            ],
            username: String::new(),
            credential: String::new(),
        }],
    );
}

#[test]
fn xirsys_answer_splits_into_stun_and_turn_groups() {
    let answer = XirsysIceUrls {
        urls: vec![
            "stun:a.example:3478".to_string(),
            "turn:b.example:80".to_string(),
            "turns:c.example:443".to_string(),
            "http://not-ice.example".to_string(),
        ],
        username: Some("u".to_string()),
        credential: Some("p".to_string()),
    };
    let groups = servers_from_xirsys(&answer);
    assert_eq!(
        groups,
        vec![
            IceServerConfig {
                urls: vec!["stun:a.example:3478".to_string()],
                username: String::new(),
                credential: String::new(),
            },
            IceServerConfig {
                urls: vec!["turn:b.example:80".to_string(), "turns:c.example:443".to_string()],
                username: "u".to_string(),
                credential: "p".to_string(),
            },
        ],
    );
}

#[test]
fn xirsys_answer_with_only_turn_urls_makes_one_group() {
    let answer = XirsysIceUrls {
        urls: vec!["turn:only.example:80".to_string()],
        username: None,
        credential: None,
    };
    let groups = servers_from_xirsys(&answer);
    assert_eq!(groups.len(), 1);
    assert_eq!(groups[0].urls, vec!["turn:only.example:80".to_string()]);
    assert_eq!(groups[0].username, "");
    assert_eq!(groups[0].credential, "");
}

#[test]
fn unusable_answers_fall_back_to_public_stun() {
    assert_eq!(xirsys_or_fallback(None), default_ice_servers());
    let empty = XirsysIceUrls {
        urls: vec!["gopher:nothing".to_string()],
        username: None,
        credential: None,
    };
    assert_eq!(xirsys_or_fallback(Some(empty)), default_ice_servers());
    let usable = XirsysIceUrls {
        urls: vec!["stun:a.example:3478".to_string()],
        username: None,
        credential: None,
    };
    let groups = xirsys_or_fallback(Some(usable));
    assert_eq!(groups.len(), 1);
    assert_eq!(groups[0].urls, vec!["stun:a.example:3478".to_string()]);
}

#[test]
fn basic_auth_token_is_base64_of_user_and_secret() {
    assert_eq!(xirsys_basic_auth("user", "secret"), "dXNlcjpzZWNyZXQ=");
    assert_eq!(xirsys_basic_auth("", ""), "Og==");
}

#[test]
fn request_url_appends_the_channel() {
    assert_eq!(
        xirsys_request_url("webhangin"),
        "https://global.xirsys.net/_turn/webhangin",
    );
}

#[test]
fn channel_defaults_when_unset() {
    assert_eq!(xirsys_channel(None), "webhangin");
    assert_eq!(xirsys_channel(Some("mychannel".to_string())), "mychannel");
}

#[test]
fn credentials_must_both_be_present() {
    assert!(xirsys_creds_present("u", "s"));
    assert!(!xirsys_creds_present("", "s"));
    assert!(!xirsys_creds_present("u", ""));
    assert!(!xirsys_creds_present("", ""));
}

#[test]
fn audio_policy_is_opus() {
    let codecs = audio_codecs();
    assert_eq!(codecs.len(), 1);
    assert_eq!(codecs[0].mime_type, "audio/opus");
    assert_eq!(codecs[0].clock_rate, 48000);
    assert_eq!(codecs[0].channels, 2);
    assert_eq!(codecs[0].sdp_fmtp_line, "minptime=10;useinbandfec=1");
    assert_eq!(codecs[0].payload_type, 111);
    assert!(codecs[0].rtcp_feedback.is_empty());
}

#[test]
fn video_policy_is_h264_with_feedback() {
    let codecs = video_codecs();
    assert_eq!(codecs.len(), 1);
    assert_eq!(codecs[0].mime_type, "video/H264");
    assert_eq!(codecs[0].clock_rate, 90000);
    assert_eq!(codecs[0].payload_type, 102);
    assert_eq!(
        codecs[0].sdp_fmtp_line,
        "level-asymmetry-allowed=1;packetization-mode=1;profile-level-id=42001f",
    );
    let fb: Vec<(&str, &str)> = codecs[0]
        .rtcp_feedback
        .iter()
        .map(|f| (f.typ.as_str(), f.parameter.as_str()))
        .collect();
    assert_eq!(fb, vec![("goog-remb", ""), ("ccm", "fir"), ("nack", ""), ("nack", "pli")]);
}

#[test]
fn transport_policy_is_relay_only_ipv4_with_fixed_timeouts() {
    let policy = transport_policy();
    assert!(policy.relay_only);
    assert!(policy.ipv4_only);
    assert_eq!(policy.ice_disconnected_timeout_secs, 30);
    assert_eq!(policy.ice_failed_timeout_secs, 60);
    assert_eq!(policy.ice_keep_alive_interval_secs, 2);
}

#[test]
fn character_type_defaults_to_cat() {
    assert_eq!(default_character_type(), "cat");
}
