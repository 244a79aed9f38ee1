use thufs::contract::ResolvedRemoteRef;
use thufs::error::ThufsError;
use thufs::pull::{share_target, ResolvedDownloadTarget};
use thufs::seafile::{DownloadAuth, SharedFileDownload};
use thufs::share::{
    format_human, page_share_links, parse_share_ref, parse_share_token, parse_share_url, share_link_form,
    share_link_request, share_links_query, share_result, share_url, unshare_token, validate_options, ShareLink,
    ShareOptions,
};

fn link(token: &str, path: Option<&str>, is_dir: Option<bool>) -> ShareLink {
    ShareLink {
        link: None,
        token: Some(token.to_string()),
        path: path.map(|p| p.to_string()),
        repo_id: Some("repo-1".to_string()),
        repo_name: None,
        obj_name: None,
        is_dir,
        ctime: None,
        expire_date: None,
        view_cnt: Some(3),
        expire_days: None,
    }
}

#[test]
fn parses_share_file_url() {
    let token = parse_share_url("https://cloud.tsinghua.edu.cn/f/abc123XYZ_/").expect("parse url");
    assert_eq!(token.as_deref(), Some("abc123XYZ_"));
}

#[test]
fn parses_share_url_with_dl_query() {
    let token = parse_share_url("https://cloud.tsinghua.edu.cn/f/abc123XYZ_/?dl=1").expect("parse url");
    assert_eq!(token.as_deref(), Some("abc123XYZ_"));
}

#[test]
fn parses_share_url_without_trailing_slash_but_with_dl_query() {
    let token = parse_share_url("https://cloud.tsinghua.edu.cn/f/abc123XYZ_?dl=1").expect("parse");
    assert_eq!(token.as_deref(), Some("abc123XYZ_"));
}

#[test]
fn parses_http_share_url() {
    let token = parse_share_url("http://cloud.tsinghua.edu.cn/f/abc123XYZ_/").expect("parse");
    assert_eq!(token.as_deref(), Some("abc123XYZ_"));
}

#[test]
fn parses_directory_share_url() {
    let token = parse_share_url("https://cloud.tsinghua.edu.cn/d/abc123XYZ_/?dl=1").expect("parse");
    assert_eq!(token.as_deref(), Some("abc123XYZ_"));
}

#[test]
fn parses_share_url_with_fragment() {
    let token = parse_share_url("https://cloud.tsinghua.edu.cn/f/abc123XYZ_/#/view").expect("parse");
    assert_eq!(token.as_deref(), Some("abc123XYZ_"));
}

#[test]
fn requires_share_flag_for_bare_hashcode() {
    let shared = parse_share_ref("abc123XYZ_", false).expect("parse");
    assert_eq!(shared, None);
}

#[test]
fn accepts_bare_hashcode_with_share_flag() {
    let shared = parse_share_ref("abc123XYZ_", true).expect("parse");
    assert_eq!(shared.expect("shared").token, "abc123XYZ_".to_string());
}

#[test]
fn repo_download_targets_require_authentication() {
    let target = ResolvedDownloadTarget {
        source: "repo:course-lib/slides/week1.pdf".to_string(),
        repo: "course-lib".to_string(),
        remote_path: "/slides/week1.pdf".to_string(),
        remote_name: "week1.pdf".to_string(),
        download_link: "https://cloud.tsinghua.edu.cn/seafhttp/files/example".to_string(),
        auth: DownloadAuth::Required,
    };

    assert_eq!(target.auth, DownloadAuth::Required);
}

#[test]
fn share_download_targets_use_optional_authentication() {
    let target = ResolvedDownloadTarget {
        source: "share:abc123XYZ_".to_string(),
        repo: "share".to_string(),
        remote_path: "/week1.pdf".to_string(),
        remote_name: "week1.pdf".to_string(),
        download_link: "https://cloud.tsinghua.edu.cn/f/abc123XYZ_/?dl=1".to_string(),
        auth: DownloadAuth::Optional,
    };

    assert_eq!(target.auth, DownloadAuth::Optional);
}

#[test]
fn share_targets_are_built_from_the_shared_file() {
    let target = share_target(&SharedFileDownload {
        token: "abc123XYZ_".to_string(),
        file_name: "week1.pdf".to_string(),
        download_link: "https://cloud.tsinghua.edu.cn/f/abc123XYZ_/?dl=1".to_string(),
    });
    assert_eq!(
        target,
        ResolvedDownloadTarget {
            source: "share:abc123XYZ_".to_string(),
            repo: "share".to_string(),
            remote_path: "/week1.pdf".to_string(),
            remote_name: "week1.pdf".to_string(),
            download_link: "https://cloud.tsinghua.edu.cn/f/abc123XYZ_/?dl=1".to_string(),
            auth: DownloadAuth::Optional,
        }
    );
}

#[test]
fn rejects_zero_day_expiration() {
    let err = validate_options(&ShareOptions {
        password: None,
        expire_days: Some(0),
    })
    .expect_err("should fail");
    assert!(err.message().contains("at least 1 day"));
}

#[test]
fn rejects_empty_password() {
    let err = validate_options(&ShareOptions {
        password: Some(String::new()),
        expire_days: None,
    })
    .expect_err("should fail");
    assert!(err.message().contains("cannot be empty"));
}

#[test]
fn accepts_reasonable_share_options() {
    assert_eq!(
        validate_options(&ShareOptions {
            password: Some("secret".to_string()),
            expire_days: Some(7),
        }),
        Ok(())
    );
}

#[test]
fn share_hashcode_errors() {
    assert_eq!(parse_share_token("  "), Err(ThufsError::ShareHashcodeEmpty));
    assert_eq!(parse_share_token("ab!c"), Err(ThufsError::ShareHashcodeUnsupported));
    assert_eq!(parse_share_token(" abc?x=1"), Ok("abc".to_string()));
    assert_eq!(
        parse_share_url("https://cloud.tsinghua.edu.cn/f/"),
        Err(ThufsError::ShareMissingHashcode)
    );
    assert_eq!(parse_share_url("https://cloud.tsinghua.edu.cn/x/abc/"), Ok(None));
    assert_eq!(parse_share_url("https://example.com/f/abc/"), Ok(None));
    assert_eq!(parse_share_ref("   ", true), Ok(None));
}

#[test]
fn query_and_fragment_after_share_url_are_ignored() {
    let base = "https://cloud.tsinghua.edu.cn/f/tok-1_";
    let plain = parse_share_url(base);
    assert_eq!(plain, Ok(Some("tok-1_".to_string())));
    assert_eq!(parse_share_url(&format!("{base}?dl=1")), plain);
    assert_eq!(parse_share_url(&format!("{base}#/view")), plain);
}

#[test]
fn share_urls_prefer_the_server_link() {
    let mut with_link = link("tok", Some("/a.txt"), Some(false));
    with_link.link = Some("https://cloud.tsinghua.edu.cn/f/custom/".to_string());
    assert_eq!(share_url(&with_link, "/a.txt"), "https://cloud.tsinghua.edu.cn/f/custom/");
    assert_eq!(
        share_url(&link("tok", None, Some(true)), "/a.txt"),
        "https://cloud.tsinghua.edu.cn/d/tok/"
    );
    assert_eq!(
        share_url(&link("tok", None, None), "/dir/"),
        "https://cloud.tsinghua.edu.cn/d/tok/"
    );
    assert_eq!(
        share_url(&link("tok", None, None), "/a.txt"),
        "https://cloud.tsinghua.edu.cn/f/tok/"
    );
}

#[test]
fn created_share_reports_expiry_and_password() {
    let resolved = ResolvedRemoteRef::new("course-lib".to_string(), "repo-1".to_string(), "/a.txt".to_string());
    let options = ShareOptions {
        password: Some("pw".to_string()),
        expire_days: Some(3),
    };
    let request = share_link_request(&resolved, &options);
    assert_eq!(request.repo_id, "repo-1");
    assert_eq!(request.path, "/a.txt");
    let form = share_link_form(&request);
    assert_eq!(
        form,
        vec![
            ("repo_id".to_string(), "repo-1".to_string()),
            ("path".to_string(), "/a.txt".to_string()),
            ("password".to_string(), "pw".to_string()),
            ("expire_days".to_string(), "3".to_string()),
        ]
    );
    let result = share_result(&resolved, &link("tok", None, Some(false)), &options);
    assert_eq!(result.url, "https://cloud.tsinghua.edu.cn/f/tok/");
    assert_eq!(result.link, result.url);
    assert_eq!(result.expires_in_days, Some(3));
    assert!(result.password_protected);
    assert_eq!(
        share_links_query("repo-1", None),
        vec![("repo_id".to_string(), "repo-1".to_string())]
    );
}

#[test]
fn unshare_needs_a_token() {
    assert_eq!(unshare_token("  "), Err(ThufsError::EmptyShareToken));
    assert_eq!(unshare_token(" tok "), Ok("tok".to_string()));
}

#[test]
fn share_pages_cover_every_link_once() {
    let links: Vec<ShareLink> = (0..5).map(|i| link(&format!("t{i}"), Some("/a"), Some(false))).collect();
    let mut seen = Vec::new();
    for page in 1..=3 {
        let result = page_share_links(None, None, &links, page, 2, false);
        assert_eq!(result.total, 5);
        assert_eq!(result.has_more, page < 3);
        for share in result.shares {
            seen.push(share.token.expect("token"));
        }
    }
    assert_eq!(seen, vec!["t0", "t1", "t2", "t3", "t4"]);
    let everything = page_share_links(Some("course-lib".to_string()), None, &links, 9, 1, true);
    assert_eq!(everything.shares.len(), 5);
    assert_eq!(everything.per_page, 5);
    assert!(!everything.has_more);
    assert_eq!(everything.shares[0].repo.as_deref(), Some("course-lib"));
    let beyond = page_share_links(None, None, &links, 4, 2, false);
    assert!(beyond.shares.is_empty());
    assert!(!format_human(&beyond).is_empty());
}

#[test]
fn built_share_urls_are_read_back_as_their_token() {
    for (is_dir, path) in [(Some(true), "/a"), (Some(false), "/a"), (None, "/dir/"), (None, "/f.txt")] {
        let share = link("Tok_en-9", None, is_dir);
        let url = share_url(&share, path);
        assert_eq!(parse_share_url(&url), Ok(Some("Tok_en-9".to_string())));
        assert_eq!(
            parse_share_ref(&url, false).expect("share").map(|r| r.token),
            Some("Tok_en-9".to_string())
        );
    }
}
