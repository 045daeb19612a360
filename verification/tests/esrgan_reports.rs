use artfetch::esrgan::{
    debug_enabled, debug_log_text, installed_from, log_wanted, models_present, esrgan_args, esrgan_bin, esrgan_dir, esrgan_download_url,
    esrgan_installed, esrgan_model_file, esrgan_models_dir, finished_report, first_nonblank_line,
    missing_model_report, signed_decimal_string, start_failure_report, UpscaleReport,
    ESRGAN_LINUX_URL, ESRGAN_MACOS_URL,
};

fn report(stdout: &str, stderr: &str, status: Option<i32>, signal: Option<i32>) -> UpscaleReport {
    UpscaleReport {
        success: false,
        status,
        signal,
        stdout: stdout.to_string(),
        stderr: stderr.to_string(),
        log_path: None,
    }
}

#[test]
fn summary_prefers_error_output() {
    let r = report("progress 10%\n", "\n   \n  vkCreateInstance failed  \r\nmore\n", Some(255), None);
    assert_eq!(r.failure_summary(), "vkCreateInstance failed");
}

#[test]
fn summary_falls_back_to_output_then_exit() {
    assert_eq!(report("  \n done \n", " \n", Some(1), None).failure_summary(), "done");
    assert_eq!(report("", "", Some(-3), None).failure_summary(), "Real-ESRGAN exited with code -3");
    assert_eq!(report("", "\n\n", Some(0), Some(9)).failure_summary(), "Real-ESRGAN exited with code 0");
    assert_eq!(report("", "", None, Some(9)).failure_summary(), "Real-ESRGAN was killed by signal 9");
    assert_eq!(report("", "", None, None).failure_summary(), "Real-ESRGAN failed to start");
}

#[test]
fn first_lines() {
    assert_eq!(first_nonblank_line("a\nb"), Some("a".to_string()));
    assert_eq!(first_nonblank_line("\t\n \n"), None);
    assert_eq!(first_nonblank_line(""), None);
    assert_eq!(first_nonblank_line("\n\nlast"), Some("last".to_string()));
    assert_eq!(signed_decimal_string(i32::MIN), "-2147483648");
}

#[test]
fn install_locations() {
    assert_eq!(esrgan_dir("/home/u/.local/share"), "/home/u/.local/share/artfetch/realesrgan");
    assert_eq!(esrgan_bin("/d"), "/d/artfetch/realesrgan/realesrgan-ncnn-vulkan");
    assert_eq!(esrgan_models_dir("/d/"), "/d/artfetch/realesrgan/models");
    assert_eq!(esrgan_model_file("/d", "param"), "/d/artfetch/realesrgan/models/realesrgan-x4plus.param");
    assert!(!esrgan_installed("/definitely/not/here"));
}

#[test]
fn download_per_platform() {
    assert_eq!(esrgan_download_url("linux"), ESRGAN_LINUX_URL);
    assert_eq!(esrgan_download_url("macos"), ESRGAN_MACOS_URL);
    assert!(ESRGAN_LINUX_URL.ends_with("-ubuntu.zip"));
}

#[test]
fn command_arguments() {
    assert_eq!(
        esrgan_args("in.jpg", "out.jpg", Some("/m")),
        vec!["-i", "in.jpg", "-o", "out.jpg", "-s", "2", "-n", "realesrgan-x4plus", "-m", "/m"]
    );
    assert_eq!(esrgan_args("a", "b", None).len(), 8);
}

#[test]
fn reports() {
    let r = missing_model_report("/d/models");
    assert!(!r.success);
    assert_eq!(r.stderr, "Real-ESRGAN model files missing in /d/models");
    assert_eq!(r.failure_summary(), "Real-ESRGAN model files missing in /d/models");
    let s = start_failure_report("No such file or directory (os error 2)".to_string());
    assert_eq!(s.failure_summary(), "No such file or directory (os error 2)");
    let ok = finished_report(true, Some(0), None, &b"fine".to_vec(), &vec![0xff], true);
    assert!(ok.success);
    assert_eq!(ok.stdout, "fine");
    assert_eq!(ok.stderr, "\u{FFFD}");
    let missing = finished_report(true, Some(0), None, &vec![], &vec![], false);
    assert!(!missing.success);
}

#[test]
fn debug_switch_and_log() {
    assert!(debug_enabled(Some("1")));
    assert!(debug_enabled(Some("YES")));
    assert!(!debug_enabled(Some("Yes")));
    assert!(!debug_enabled(None));
    let r = report("out", "err", Some(1), None);
    let log = debug_log_text("i.jpg", "o.jpg", "/bin/x", "/m", true, &r, false);
    assert_eq!(
        log,
        "input: i.jpg\noutput: o.jpg\nbinary: /bin/x\nmodels: /m\nmodels_exists: true\nstatus: Some(1)\nsignal: None\noutput_exists: false\n\nstdout:\nout\n\nstderr:\nerr\n"
    );
}

#[test]
fn install_checks_combine() {
    assert!(installed_from(true, true, true));
    assert!(!installed_from(false, true, true));
    assert!(!installed_from(true, true, false));
    assert!(models_present(true, true));
    assert!(!models_present(false, true));
    assert!(!esrgan_model_installed_here());
}

fn esrgan_model_installed_here() -> bool {
    artfetch::esrgan::esrgan_model_installed("/definitely/not/here")
}

#[test]
fn log_only_for_failed_runs() {
    assert!(log_wanted(Some("1"), false));
    assert!(!log_wanted(Some("1"), true));
    assert!(!log_wanted(None, false));
    assert!(!log_wanted(Some("0"), false));
}
