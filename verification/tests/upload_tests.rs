use sup::config::Upload;
use sup::errors::ExecError;
use sup::upload::{extract_command, mkdir_command, plan_uploads, split_src_path, tar_args};

fn hosts(v: &[&str]) -> Vec<String> {
    v.iter().map(|s| s.to_string()).collect()
}

fn upload(src: &str, dst: &str) -> Upload {
    Upload { src: src.to_string(), dst: dst.to_string() }
}

#[test]
fn test_split_src_path() {
    assert_eq!(split_src_path("./dist").unwrap(), (".".to_string(), "dist".to_string()));
    assert_eq!(split_src_path("dist").unwrap(), (".".to_string(), "dist".to_string()));
    assert_eq!(split_src_path("file.txt").unwrap(), (".".to_string(), "file.txt".to_string()));
    // Trailing slashes are ignored, so directories work like plain files.
    assert_eq!(split_src_path("/tmp/data/").unwrap(), ("/tmp".to_string(), "data".to_string()));
    assert_eq!(split_src_path("/a").unwrap(), ("/".to_string(), "a".to_string()));
    assert_eq!(split_src_path("a/b/c").unwrap(), ("a/b".to_string(), "c".to_string()));
}

#[test]
fn test_split_src_path_rejects_baseless() {
    for bad in ["", "/", "//", ".", "..", "a/.."] {
        let e = split_src_path(bad).unwrap_err();
        assert_eq!(e, ExecError::InvalidUploadSource { src: bad.to_string() });
    }
}

#[test]
fn test_upload_commands() {
    assert_eq!(mkdir_command("/tmp/"), "mkdir -p '/tmp/'");
    assert_eq!(extract_command("/tmp/"), "cd '/tmp/' && tar xzf -");
    assert_eq!(tar_args(".", "dist"), hosts(&["-czf", "-", "-C", ".", "dist"]));
}

#[test]
fn test_plan_uploads_order() {
    // Host-major order: every upload for a host before the next host.
    let hs = hosts(&["a@x", "b@y"]);
    let ups = vec![upload("./dist", "/tmp/"), upload("conf", "/opt")];
    let steps = plan_uploads(&hs, &ups).unwrap();
    assert_eq!(steps.len(), 4);
    assert_eq!(steps[0].target.username, "a");
    assert_eq!(steps[0].src, "./dist");
    assert_eq!(steps[0].dst, "/tmp/");
    assert_eq!(steps[0].tar_parent, ".");
    assert_eq!(steps[0].tar_base, "dist");
    assert_eq!(steps[1].target.username, "a");
    assert_eq!(steps[1].src, "conf");
    assert_eq!(steps[2].target.username, "b");
    assert_eq!(steps[2].src, "./dist");
    assert_eq!(steps[3].target.username, "b");
    assert_eq!(steps[3].src, "conf");
}

#[test]
fn test_plan_uploads_failures() {
    // A host literal without `@` is fatal for the whole upload stage.
    let e = plan_uploads(&hosts(&["nohost"]), &vec![upload("dist", "/tmp")]).unwrap_err();
    assert_eq!(e, ExecError::HostMissingAt { host: "nohost".to_string() });

    // A source with no base name is fatal too.
    let e = plan_uploads(&hosts(&["a@x"]), &vec![upload("/", "/tmp")]).unwrap_err();
    assert_eq!(e, ExecError::InvalidUploadSource { src: "/".to_string() });

    // No hosts, nothing to check, trivial success.
    let steps = plan_uploads(&hosts(&[]), &vec![upload("/", "/tmp")]).unwrap();
    assert_eq!(steps.len(), 0);
}
