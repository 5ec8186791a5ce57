use vstd::prelude::*;
use vstd::string::*;

use crate::artifact::{file_name_of, Artifact, ArtifactView};
use crate::error::ReleaserError;

verus! {

/// A release that the project has on GitLab.
#[derive(Debug, Clone, PartialEq, Eq)]
pub struct Release {
    /// The name shown for the release. It plays no part in any comparison.
    pub name: String,
    /// The tag that the release was made from.
    pub tag_name: String,
}

/// The mathematical value of a [`Release`].
pub struct ReleaseView {
    pub name: Seq<char>,
    pub tag_name: Seq<char>,
}

impl View for Release {
    type V = ReleaseView;

    open spec fn view(&self) -> ReleaseView {
        ReleaseView { name: self.name@, tag_name: self.tag_name@ }
    }
}

impl DeepView for Release {
    type V = ReleaseView;

    open spec fn deep_view(&self) -> ReleaseView {
        self@
    }
}

/// A tag in the repository of the project.
#[derive(Debug, Clone, PartialEq, Eq)]
pub struct Tag {
    pub name: String,
}

/// The mathematical value of a [`Tag`].
pub struct TagView {
    pub name: Seq<char>,
}

impl View for Tag {
    type V = TagView;

    open spec fn view(&self) -> TagView {
        TagView { name: self.name@ }
    }
}

impl DeepView for Tag {
    type V = TagView;

    open spec fn deep_view(&self) -> TagView {
        self@
    }
}

/// A project as GitLab describes it.
#[derive(Debug, PartialEq, Eq)]
pub struct Project {
    id: i64,
    name: String,
    path_with_namespace: String,
}

/// The mathematical value of a [`Project`].
pub struct ProjectView {
    pub id: int,
    pub name: Seq<char>,
    pub path_with_namespace: Seq<char>,
}

impl View for Project {
    type V = ProjectView;

    closed spec fn view(&self) -> ProjectView {
        ProjectView {
            id: self.id as int,
            name: self.name@,
            path_with_namespace: self.path_with_namespace@,
        }
    }
}

/// A request to create a release of a project.
#[derive(Debug, PartialEq, Eq)]
pub struct ReleaseRequest {
    pub project: String,
    pub name: String,
    pub tag_name: String,
    pub tag_message: String,
}

/// The mathematical value of a [`ReleaseRequest`].
pub struct ReleaseRequestView {
    pub project: Seq<char>,
    pub name: Seq<char>,
    pub tag_name: Seq<char>,
    pub tag_message: Seq<char>,
}

impl View for ReleaseRequest {
    type V = ReleaseRequestView;

    open spec fn view(&self) -> ReleaseRequestView {
        ReleaseRequestView {
            project: self.project@,
            name: self.name@,
            tag_name: self.tag_name@,
            tag_message: self.tag_message@,
        }
    }
}

/// A request to upload one file to the generic package registry of a project.
#[derive(Debug, PartialEq, Eq)]
pub struct PackageUpload {
    pub project: String,
    pub package_name: String,
    pub package_version: String,
    pub file_name: String,
    pub contents: Vec<u8>,
}

/// The mathematical value of a [`PackageUpload`].
pub struct PackageUploadView {
    pub project: Seq<char>,
    pub package_name: Seq<char>,
    pub package_version: Seq<char>,
    pub file_name: Seq<char>,
    pub contents: Seq<u8>,
}

impl View for PackageUpload {
    type V = PackageUploadView;

    open spec fn view(&self) -> PackageUploadView {
        PackageUploadView {
            project: self.project@,
            package_name: self.package_name@,
            package_version: self.package_version@,
            file_name: self.file_name@,
            contents: self.contents@,
        }
    }
}

/// The release that publishes `version` in `project`: made from the tag of
/// that name, and named after the version.
pub open spec fn release_of(project: Seq<char>, version: Seq<char>) -> ReleaseRequestView {
    ReleaseRequestView {
        project,
        name: "Release "@ + version,
        tag_name: version,
        tag_message: "Autogenerated release from S3"@,
    }
}

/// The upload that puts `contents` into the registry of `project` for
/// `artifact`: under the artifact's version and the file name of its key.
/// There is none for an artifact whose key has no file name.
pub open spec fn upload_of(
    project: Seq<char>,
    package_name: Seq<char>,
    artifact: ArtifactView,
    contents: Seq<u8>,
) -> Option<PackageUploadView> {
    match file_name_of(artifact.path) {
        Some(file_name) => Some(
            PackageUploadView {
                project,
                package_name,
                package_version: artifact.version,
                file_name,
                contents,
            },
        ),
        None => None,
    }
}

impl Project {
    pub fn new(id: i64, name: String, path_with_namespace: String) -> (project: Project)
        ensures
            project@ == (ProjectView {
                id: id as int,
                name: name@,
                path_with_namespace: path_with_namespace@,
            }),
    {
        Project { id, name, path_with_namespace }
    }

    pub fn id(&self) -> (id: i64)
        ensures
            id == self@.id,
    {
        self.id
    }

    pub fn name(&self) -> (name: &String)
        ensures
            name@ == self@.name,
    {
        &self.name
    }

    pub fn path_with_namespace(&self) -> (path: &String)
        ensures
            path@ == self@.path_with_namespace,
    {
        &self.path_with_namespace
    }
}

/// Words the requests that publish artifacts in one GitLab project.
#[derive(Debug)]
pub struct GitlabReleases {
    project_name: String,
    project: Project,
}

impl GitlabReleases {
    /// The name by which the project was asked for.
    pub closed spec fn requested_name(&self) -> Seq<char> {
        self.project_name@
    }

    /// The project that the requests go to.
    pub closed spec fn target(&self) -> ProjectView {
        self.project@
    }

    pub fn new(project_name: String, project: Project) -> (releases: GitlabReleases)
        ensures
            releases.requested_name() == project_name@,
            releases.target() == project@,
    {
        GitlabReleases { project_name, project }
    }

    pub fn project_name(&self) -> (name: &String)
        ensures
            name@ == self.requested_name(),
    {
        &self.project_name
    }

    pub fn project(&self) -> (project: &Project)
        ensures
            project@ == self.target(),
    {
        &self.project
    }

    /// The request that creates the release of `artifact`.
    pub fn add_release(&self, artifact: &Artifact) -> (request: ReleaseRequest)
        ensures
            request@ == release_of(self.target().path_with_namespace, artifact@.version),
    {
        let mut name = String::from_str("Release ");
        name.append(artifact.version.as_str());
        ReleaseRequest {
            project: self.project.path_with_namespace.clone(),
            name,
            tag_name: artifact.version.clone(),
            tag_message: String::from_str("Autogenerated release from S3"),
        }
    }

    /// The request that uploads `artifact_contents` as the package file of
    /// `artifact`. Fails with [`ReleaserError::NoFileName`] where the
    /// artifact's key has no file name.
    pub fn add_package(
        &self,
        package_name: &String,
        artifact: &Artifact,
        artifact_contents: Vec<u8>,
    ) -> (r: Result<PackageUpload, ReleaserError>)
        ensures
            match upload_of(
                self.target().path_with_namespace,
                package_name@,
                artifact@,
                artifact_contents@,
            ) {
                Some(upload) => r matches Ok(request) && request@ == upload,
                None => r == Err::<PackageUpload, ReleaserError>(ReleaserError::NoFileName),
            },
    {
        match artifact.file_name() {
            Ok(file_name) => Ok(
                PackageUpload {
                    project: self.project.path_with_namespace.clone(),
                    package_name: package_name.clone(),
                    package_version: artifact.version.clone(),
                    file_name,
                    contents: artifact_contents,
                },
            ),
            Err(error) => Err(error),
        }
    }
}

} // verus!
