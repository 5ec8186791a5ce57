use gitlab_s3_releaser::artifact::Artifact;
use gitlab_s3_releaser::error::ReleaserError;
use gitlab_s3_releaser::gitlabreleases::{
    GitlabReleases, PackageUpload, Project, ReleaseRequest,
};

fn gitlab() -> GitlabReleases {
    let project = Project::new(42, "tool".to_string(), "group/tool".to_string());
    GitlabReleases::new("tool".to_string(), project)
}

fn artifact(path: &str, version: &str) -> Artifact {
    Artifact { s3_path: path.to_string(), version: version.to_string() }
}

#[test]
fn project_keeps_what_it_was_made_of() {
    let project = Project::new(-7, "name".to_string(), "space/name".to_string());
    assert_eq!(project.id(), -7);
    assert_eq!(project.name(), "name");
    assert_eq!(project.path_with_namespace(), "space/name");
}

#[test]
fn gitlab_releases_keeps_project_and_name() {
    let gitlab = gitlab();
    assert_eq!(gitlab.project_name(), "tool");
    assert_eq!(gitlab.project(), &Project::new(42, "tool".to_string(), "group/tool".to_string()));
}

#[test]
fn add_release_names_the_release_after_the_version() {
    let request = gitlab().add_release(&artifact("builds/app-1.2.3.zip", "1.2.3"));
    assert_eq!(
        request,
        ReleaseRequest {
            project: "group/tool".to_string(),
            name: "Release 1.2.3".to_string(),
            tag_name: "1.2.3".to_string(),
            tag_message: "Autogenerated release from S3".to_string(),
        }
    );
}

#[test]
fn add_release_of_an_empty_version() {
    let request = gitlab().add_release(&artifact("k", ""));
    assert_eq!(request.name, "Release ");
    assert_eq!(request.tag_name, "");
}

#[test]
fn add_package_uses_version_and_file_name() {
    let request = gitlab().add_package(
        &"tool-package".to_string(),
        &artifact("builds/linux/app-1.2.3.zip", "1.2.3"),
        vec![1, 2, 3],
    );
    assert_eq!(
        request,
        Ok(PackageUpload {
            project: "group/tool".to_string(),
            package_name: "tool-package".to_string(),
            package_version: "1.2.3".to_string(),
            file_name: "app-1.2.3.zip".to_string(),
            contents: vec![1, 2, 3],
        })
    );
}

#[test]
fn add_package_takes_empty_contents() {
    let request = gitlab()
        .add_package(&"p".to_string(), &artifact("file", "v"), Vec::new())
        .unwrap();
    assert_eq!(request.file_name, "file");
    assert!(request.contents.is_empty());
}

#[test]
fn add_package_fails_without_a_file_name() {
    let gitlab = gitlab();
    let package = "p".to_string();
    for key in ["", "/", "builds/..", "."] {
        assert_eq!(
            gitlab.add_package(&package, &artifact(key, "1"), vec![0]),
            Err(ReleaserError::NoFileName),
            "key {key:?}"
        );
    }
}

#[test]
fn errors_are_put_in_words() {
    assert_eq!(ReleaserError::NoFileName.message(), "Cannot parse S3 path");
    assert_eq!(
        ReleaserError::InvalidPattern("unclosed group".to_string()).message(),
        "Cannot parse regex: unclosed group"
    );
    assert_eq!(ReleaserError::InvalidPattern(String::new()).message(), "Cannot parse regex: ");
}
