use vstd::prelude::*;

use crate::markdown;
use crate::markdown::{is_markdown_path, paths_equal, summarize_markdown};
use crate::text;
use crate::text::{concat_str, str_eq, str_le};

verus! {

/// A markdown file of the workspace directory, as the profile page lists it.
#[derive(Debug)]
pub struct WorkspaceMarkdownDoc {
    pub file_name: String,
    pub path: String,
    pub summary: String,
    pub modified_label: String,
    pub size_bytes: u64,
}

/// The editor window opened on one workspace file.
#[derive(Debug)]
pub struct WorkspaceMarkdownEditor {
    pub file_name: String,
    pub path: String,
    pub original_raw: String,
    pub editor_raw: String,
    pub open: bool,
}

/// The rendered preview window of one workspace file.
#[derive(Debug)]
pub struct WorkspaceMarkdownPreview {
    pub file_name: String,
    pub path: String,
    pub content: String,
    pub open: bool,
}

/// The form that creates a new workspace file.
#[derive(Debug)]
pub struct WorkspaceFileCreateForm {
    pub file_name: String,
    pub body: String,
    pub open: bool,
}

/// What a reset to the built-in template replaces: the open editor's text, or a file.
#[derive(Debug)]
pub enum DefaultResetTarget {
    Editor,
    File(String),
}

/// A reset to the built-in template that waits for confirmation.
#[derive(Debug)]
pub struct PendingDefaultReset {
    pub file_name: String,
    pub target: DefaultResetTarget,
}

/// What a look at the background system prompt preview task found.
pub enum PreviewPoll {
    /// The task finished with this preview.
    Ready(String),
    /// The task is still running.
    Pending,
    /// The task went away without an answer.
    Disconnected,
}

/// The state of the profile page.
#[derive(Debug)]
pub struct ProfilePanel {
    pub workspace_dir: Option<String>,
    pub docs: Vec<WorkspaceMarkdownDoc>,
    pub selected_doc: Option<String>,
    pub system_prompt_preview: String,
    pub system_prompt_preview_loading: bool,
    /// Whether a background preview task is still to be heard from.
    pub system_prompt_preview_waiting: bool,
    pub editor: Option<WorkspaceMarkdownEditor>,
    pub preview: Option<WorkspaceMarkdownPreview>,
    pub create_form: WorkspaceFileCreateForm,
    pub loaded: bool,
    pub pending_default_confirm: Option<PendingDefaultReset>,
    pub pending_delete_doc: Option<WorkspaceMarkdownDoc>,
}

/// The text shown while the first preview loads.
pub open spec fn preview_loading_text() -> Seq<char> {
    "Loading system prompt preview..."@
}

/// The text shown when the preview task went away.
pub open spec fn preview_disconnected_text() -> Seq<char> {
    "# System Prompt Preview Unavailable\n\nBackground preview task disconnected."@
}

/// Whether some document of `docs` has the file name `name`.
pub open spec fn has_doc_named(docs: Seq<WorkspaceMarkdownDoc>, name: Seq<char>) -> bool {
    exists|i: int| 0 <= i < docs.len() && (#[trigger] docs[i]).file_name@ == name
}

/// The selection kept after the document list changed: dropped when no document has that name.
pub open spec fn kept_selection(
    selected: Option<String>,
    docs: Seq<WorkspaceMarkdownDoc>,
) -> Option<String> {
    match selected {
        Some(s) => if has_doc_named(docs, s@) {
            Some(s)
        } else {
            None
        },
        None => None,
    }
}

/// The preview text after a refresh starts: a loading note replaces an empty text.
pub open spec fn preview_text_on_refresh(old_text: Seq<char>) -> Seq<char> {
    if old_text.len() == 0 {
        preview_loading_text()
    } else {
        old_text
    }
}

/// Whether some document of `docs` is named `name`.
fn any_doc_named(docs: &Vec<WorkspaceMarkdownDoc>, name: &String) -> (r: bool)
    ensures
        r == has_doc_named(docs@, name@),
{
    let mut i: usize = 0;
    while i < docs.len()
        invariant
            i <= docs.len(),
            forall|j: int| 0 <= j < i ==> (#[trigger] docs@[j]).file_name@ != name@,
        decreases docs.len() - i,
    {
        if docs[i].file_name == *name {
            return true;
        }
        i = i + 1;
    }
    false
}

impl WorkspaceFileCreateForm {
    /// An empty, closed form.
    pub fn new() -> (f: Self)
        ensures
            f.file_name@ == Seq::<char>::empty(),
            f.body@ == Seq::<char>::empty(),
            !f.open,
    {
        WorkspaceFileCreateForm { file_name: String::new(), body: String::new(), open: false }
    }
}

impl ProfilePanel {
    /// The page before anything was loaded.
    pub fn new() -> (p: Self)
        ensures
            p.workspace_dir is None,
            p.docs@.len() == 0,
            p.selected_doc is None,
            p.system_prompt_preview@ == Seq::<char>::empty(),
            !p.system_prompt_preview_loading,
            !p.system_prompt_preview_waiting,
            p.editor is None,
            p.preview is None,
            p.create_form.file_name@ == Seq::<char>::empty(),
            p.create_form.body@ == Seq::<char>::empty(),
            !p.create_form.open,
            !p.loaded,
            p.pending_default_confirm is None,
            p.pending_delete_doc is None,
    {
        ProfilePanel {
            workspace_dir: None,
            docs: Vec::new(),
            selected_doc: None,
            system_prompt_preview: String::new(),
            system_prompt_preview_loading: false,
            system_prompt_preview_waiting: false,
            editor: None,
            preview: None,
            create_form: WorkspaceFileCreateForm::new(),
            loaded: false,
            pending_default_confirm: None,
            pending_delete_doc: None,
        }
    }

    /// Whether the page still has to load the workspace files.
    pub fn ensure_loaded(&self) -> (needs_load: bool)
        ensures
            needs_load == !self.loaded,
    {
        !self.loaded
    }

    /// Starts a new system prompt preview: the page waits for the background task.
    pub fn refresh_system_prompt_preview(&mut self)
        ensures
            final(self).system_prompt_preview_loading,
            final(self).system_prompt_preview_waiting,
            final(self).system_prompt_preview@ == preview_text_on_refresh(
                old(self).system_prompt_preview@,
            ),
            final(self).workspace_dir == old(self).workspace_dir,
            final(self).docs == old(self).docs,
            final(self).selected_doc == old(self).selected_doc,
            final(self).editor == old(self).editor,
            final(self).preview == old(self).preview,
            final(self).create_form == old(self).create_form,
            final(self).loaded == old(self).loaded,
            final(self).pending_default_confirm == old(self).pending_default_confirm,
            final(self).pending_delete_doc == old(self).pending_delete_doc,
    {
        self.system_prompt_preview_loading = true;
        self.system_prompt_preview_waiting = true;
        if self.system_prompt_preview.as_str().is_empty() {
            self.system_prompt_preview = "Loading system prompt preview...".to_owned();
        }
    }

    /// Takes in the outcome of loading the workspace directory and its markdown files.
    /// On success the list is replaced, a selection whose file is gone is dropped, and a
    /// preview refresh starts; on failure the page is unchanged and a notice is returned.
    pub fn reload(&mut self, outcome: Result<(String, Vec<WorkspaceMarkdownDoc>), String>) -> (notice:
        Option<String>)
        ensures
            match outcome {
                Ok((dir, docs)) => {
                    &&& notice is None
                    &&& final(self).workspace_dir == Some(dir)
                    &&& final(self).docs == docs
                    &&& final(self).selected_doc == kept_selection(old(self).selected_doc, docs@)
                    &&& final(self).loaded
                    &&& final(self).system_prompt_preview_loading
                    &&& final(self).system_prompt_preview_waiting
                    &&& final(self).system_prompt_preview@ == preview_text_on_refresh(
                        old(self).system_prompt_preview@,
                    )
                    &&& final(self).editor == old(self).editor
                    &&& final(self).preview == old(self).preview
                    &&& final(self).create_form == old(self).create_form
                    &&& final(self).pending_default_confirm == old(self).pending_default_confirm
                    &&& final(self).pending_delete_doc == old(self).pending_delete_doc
                },
                Err(err) => {
                    &&& notice is Some
                    &&& notice->0@ == "Failed to load workspace markdown files: "@ + err@
                    &&& *final(self) == *old(self)
                },
            },
    {
        match outcome {
            Ok((dir, docs)) => {
                self.workspace_dir = Some(dir);
                let keep = match &self.selected_doc {
                    Some(s) => any_doc_named(&docs, s),
                    None => true,
                };
                if !keep {
                    self.selected_doc = None;
                }
                self.docs = docs;
                self.loaded = true;
                self.refresh_system_prompt_preview();
                None
            },
            Err(err) => Some(concat_str("Failed to load workspace markdown files: ", err.as_str())),
        }
    }

    /// Takes in what the background preview task answered, if the page waits for one.
    /// Returns a warning when the task went away.
    pub fn poll_system_prompt_preview(&mut self, poll: PreviewPoll) -> (warning: Option<String>)
        ensures
            !old(self).system_prompt_preview_waiting ==> warning is None && *final(self) == *old(
                self,
            ),
            old(self).system_prompt_preview_waiting ==> match poll {
                PreviewPoll::Ready(text) => {
                    &&& warning is None
                    &&& final(self).system_prompt_preview == text
                    &&& !final(self).system_prompt_preview_loading
                    &&& !final(self).system_prompt_preview_waiting
                },
                PreviewPoll::Pending => {
                    &&& warning is None
                    &&& *final(self) == *old(self)
                },
                PreviewPoll::Disconnected => {
                    &&& warning is Some
                    &&& warning->0@ == "System prompt preview loader disconnected"@
                    &&& final(self).system_prompt_preview@ == preview_disconnected_text()
                    &&& !final(self).system_prompt_preview_loading
                    &&& !final(self).system_prompt_preview_waiting
                },
            },
            final(self).workspace_dir == old(self).workspace_dir,
            final(self).docs == old(self).docs,
            final(self).selected_doc == old(self).selected_doc,
            final(self).editor == old(self).editor,
            final(self).preview == old(self).preview,
            final(self).create_form == old(self).create_form,
            final(self).loaded == old(self).loaded,
            final(self).pending_default_confirm == old(self).pending_default_confirm,
            final(self).pending_delete_doc == old(self).pending_delete_doc,
    {
        if !self.system_prompt_preview_waiting {
            return None;
        }
        match poll {
            PreviewPoll::Ready(text) => {
                self.system_prompt_preview = text;
                self.system_prompt_preview_loading = false;
                self.system_prompt_preview_waiting = false;
                None
            },
            PreviewPoll::Pending => None,
            PreviewPoll::Disconnected => {
                self.system_prompt_preview_loading = false;
                self.system_prompt_preview_waiting = false;
                self.system_prompt_preview =
                    "# System Prompt Preview Unavailable\n\nBackground preview task disconnected.".to_owned();
                Some("System prompt preview loader disconnected".to_owned())
            },
        }
    }

    /// Opens the editor on `doc` with the text read from its file, or returns the notice
    /// for the read error.
    pub fn open_editor(&mut self, doc: &WorkspaceMarkdownDoc, read: Result<String, String>) -> (notice:
        Option<String>)
        ensures
            match read {
                Ok(content) => {
                    &&& notice is None
                    &&& final(self).editor is Some
                    &&& final(self).editor->0.file_name == doc.file_name
                    &&& final(self).editor->0.path == doc.path
                    &&& final(self).editor->0.original_raw == content
                    &&& final(self).editor->0.editor_raw == content
                    &&& final(self).editor->0.open
                    &&& final(self).preview == old(self).preview
                },
                Err(err) => {
                    &&& notice is Some
                    &&& notice->0@ == "Failed to read "@ + doc.path@ + ": "@ + err@
                    &&& final(self).editor == old(self).editor
                    &&& final(self).preview == old(self).preview
                },
            },
            final(self).workspace_dir == old(self).workspace_dir,
            final(self).docs == old(self).docs,
            final(self).selected_doc == old(self).selected_doc,
            final(self).system_prompt_preview == old(self).system_prompt_preview,
            final(self).create_form == old(self).create_form,
            final(self).loaded == old(self).loaded,
            final(self).pending_default_confirm == old(self).pending_default_confirm,
            final(self).pending_delete_doc == old(self).pending_delete_doc,
    {
        match read {
            Ok(content) => {
                self.editor = Some(
                    WorkspaceMarkdownEditor {
                        file_name: doc.file_name.clone(),
                        path: doc.path.clone(),
                        original_raw: content.clone(),
                        editor_raw: content,
                        open: true,
                    },
                );
                None
            },
            Err(err) => Some(read_error_notice(doc.path.as_str(), err.as_str())),
        }
    }

    /// Opens the preview of `doc` with the text read from its file, or returns the notice
    /// for the read error.
    pub fn open_preview(&mut self, doc: &WorkspaceMarkdownDoc, read: Result<String, String>) -> (notice:
        Option<String>)
        ensures
            match read {
                Ok(content) => {
                    &&& notice is None
                    &&& final(self).preview is Some
                    &&& final(self).preview->0.file_name == doc.file_name
                    &&& final(self).preview->0.path == doc.path
                    &&& final(self).preview->0.content == content
                    &&& final(self).preview->0.open
                    &&& final(self).editor == old(self).editor
                },
                Err(err) => {
                    &&& notice is Some
                    &&& notice->0@ == "Failed to read "@ + doc.path@ + ": "@ + err@
                    &&& final(self).editor == old(self).editor
                    &&& final(self).preview == old(self).preview
                },
            },
            final(self).workspace_dir == old(self).workspace_dir,
            final(self).docs == old(self).docs,
            final(self).selected_doc == old(self).selected_doc,
            final(self).system_prompt_preview == old(self).system_prompt_preview,
            final(self).create_form == old(self).create_form,
            final(self).loaded == old(self).loaded,
            final(self).pending_default_confirm == old(self).pending_default_confirm,
            final(self).pending_delete_doc == old(self).pending_delete_doc,
    {
        match read {
            Ok(content) => {
                self.preview = Some(
                    WorkspaceMarkdownPreview {
                        file_name: doc.file_name.clone(),
                        path: doc.path.clone(),
                        content,
                        open: true,
                    },
                );
                None
            },
            Err(err) => Some(read_error_notice(doc.path.as_str(), err.as_str())),
        }
    }

    /// After the file at `path` was written with `content`, shows that text in the editor
    /// and the preview that are open on that same path.
    pub fn sync_open_views_with_content(&mut self, path: &str, content: &str)
        ensures
            match old(self).editor {
                Some(e) => {
                    &&& final(self).editor is Some
                    &&& final(self).editor->0.file_name == e.file_name
                    &&& final(self).editor->0.path == e.path
                    &&& final(self).editor->0.open == e.open
                    &&& if markdown::same_path(e.path@, path@) {
                        &&& final(self).editor->0.original_raw@ == content@
                        &&& final(self).editor->0.editor_raw@ == content@
                    } else {
                        &&& final(self).editor->0.original_raw == e.original_raw
                        &&& final(self).editor->0.editor_raw == e.editor_raw
                    }
                },
                None => final(self).editor is None,
            },
            match old(self).preview {
                Some(p) => {
                    &&& final(self).preview is Some
                    &&& final(self).preview->0.file_name == p.file_name
                    &&& final(self).preview->0.path == p.path
                    &&& final(self).preview->0.open == p.open
                    &&& if markdown::same_path(p.path@, path@) {
                        final(self).preview->0.content@ == content@
                    } else {
                        final(self).preview->0.content == p.content
                    }
                },
                None => final(self).preview is None,
            },
            final(self).workspace_dir == old(self).workspace_dir,
            final(self).docs == old(self).docs,
            final(self).selected_doc == old(self).selected_doc,
            final(self).system_prompt_preview == old(self).system_prompt_preview,
            final(self).system_prompt_preview_loading == old(self).system_prompt_preview_loading,
            final(self).system_prompt_preview_waiting == old(self).system_prompt_preview_waiting,
            final(self).create_form == old(self).create_form,
            final(self).loaded == old(self).loaded,
            final(self).pending_default_confirm == old(self).pending_default_confirm,
            final(self).pending_delete_doc == old(self).pending_delete_doc,
    {
        let editor = self.editor.take();
        self.editor = match editor {
            Some(mut e) => {
                if paths_equal(e.path.as_str(), path) {
                    e.original_raw = content.to_owned();
                    e.editor_raw = content.to_owned();
                }
                Some(e)
            },
            None => None,
        };
        let preview = self.preview.take();
        self.preview = match preview {
            Some(mut p) => {
                if paths_equal(p.path.as_str(), path) {
                    p.content = content.to_owned();
                }
                Some(p)
            },
            None => None,
        };
    }

    /// Whether the open editor holds changes not yet saved.
    pub fn editor_dirty(&self) -> (dirty: bool)
        ensures
            dirty == (self.editor is Some && self.editor->0.editor_raw@
                != self.editor->0.original_raw@),
    {
        match &self.editor {
            Some(e) => e.editor_raw != e.original_raw,
            None => false,
        }
    }

    /// Throws away the editor's changes.
    pub fn reset_editor(&mut self)
        ensures
            match old(self).editor {
                Some(e) => {
                    &&& final(self).editor is Some
                    &&& final(self).editor->0.editor_raw == e.original_raw
                    &&& final(self).editor->0.original_raw == e.original_raw
                    &&& final(self).editor->0.file_name == e.file_name
                    &&& final(self).editor->0.path == e.path
                    &&& final(self).editor->0.open == e.open
                },
                None => final(self).editor is None,
            },
            final(self).preview == old(self).preview,
            final(self).docs == old(self).docs,
            final(self).selected_doc == old(self).selected_doc,
            final(self).pending_default_confirm == old(self).pending_default_confirm,
    {
        let editor = self.editor.take();
        self.editor = match editor {
            Some(mut e) => {
                e.editor_raw = e.original_raw.clone();
                Some(e)
            },
            None => None,
        };
    }

    /// Asks for confirmation before the editor's text is replaced by the built-in template.
    pub fn request_editor_default(&mut self)
        ensures
            match old(self).editor {
                Some(e) => {
                    &&& final(self).pending_default_confirm is Some
                    &&& final(self).pending_default_confirm->0.file_name == e.file_name
                    &&& final(self).pending_default_confirm->0.target is Editor
                },
                None => final(self).pending_default_confirm == old(self).pending_default_confirm,
            },
            final(self).editor == old(self).editor,
            final(self).preview == old(self).preview,
            final(self).docs == old(self).docs,
    {
        if let Some(e) = &self.editor {
            self.pending_default_confirm = Some(
                PendingDefaultReset { file_name: e.file_name.clone(), target: DefaultResetTarget::Editor },
            );
        }
    }

    /// Replaces the editor's text by a built-in template; true when an editor was open.
    pub fn apply_default_to_editor(&mut self, template: &str) -> (applied: bool)
        ensures
            applied == old(self).editor is Some,
            match old(self).editor {
                Some(e) => {
                    &&& final(self).editor is Some
                    &&& final(self).editor->0.editor_raw@ == template@
                    &&& final(self).editor->0.original_raw == e.original_raw
                    &&& final(self).editor->0.file_name == e.file_name
                    &&& final(self).editor->0.path == e.path
                    &&& final(self).editor->0.open == e.open
                },
                None => final(self).editor is None,
            },
            final(self).preview == old(self).preview,
            final(self).docs == old(self).docs,
            final(self).pending_default_confirm == old(self).pending_default_confirm,
    {
        let editor = self.editor.take();
        match editor {
            Some(mut e) => {
                e.editor_raw = template.to_owned();
                self.editor = Some(e);
                true
            },
            None => {
                self.editor = None;
                false
            },
        }
    }

    /// Takes in the outcome of writing the editor's text to its file. On success the text
    /// becomes the saved one and the file name is returned; on failure the notice is.
    pub fn finish_editor_save(&mut self, written: Result<(), String>) -> (r: Result<String, String>)
        requires
            old(self).editor is Some,
        ensures
            final(self).editor is Some,
            final(self).editor->0.file_name == old(self).editor->0.file_name,
            final(self).editor->0.path == old(self).editor->0.path,
            final(self).editor->0.editor_raw == old(self).editor->0.editor_raw,
            final(self).editor->0.open == old(self).editor->0.open,
            match written {
                Ok(()) => {
                    &&& r is Ok
                    &&& r->Ok_0 == old(self).editor->0.file_name
                    &&& final(self).editor->0.original_raw == old(self).editor->0.editor_raw
                },
                Err(err) => {
                    &&& r is Err
                    &&& r->Err_0@ == "Failed to save "@ + old(self).editor->0.path@ + ": "@ + err@
                    &&& final(self).editor->0.original_raw == old(self).editor->0.original_raw
                },
            },
            final(self).preview == old(self).preview,
            final(self).docs == old(self).docs,
            final(self).pending_default_confirm == old(self).pending_default_confirm,
    {
        let editor = self.editor.take();
        match editor {
            Some(mut e) => {
                let r = match written {
                    Ok(()) => {
                        e.original_raw = e.editor_raw.clone();
                        Ok(e.file_name.clone())
                    },
                    Err(err) => {
                        let head = concat_str("Failed to save ", e.path.as_str());
                        let tail = concat_str(": ", err.as_str());
                        let msg = concat_str(head.as_str(), tail.as_str());
                        assert(msg@ =~= "Failed to save "@ + e.path@ + ": "@ + err@);
                        Err(msg)
                    },
                };
                self.editor = Some(e);
                r
            },
            None => Err(String::new()),
        }
    }

    /// Closes the editor, and with it a reset waiting for confirmation.
    pub fn close_editor(&mut self)
        ensures
            final(self).editor is None,
            final(self).pending_default_confirm is None,
            final(self).preview == old(self).preview,
            final(self).docs == old(self).docs,
            final(self).selected_doc == old(self).selected_doc,
            final(self).pending_delete_doc == old(self).pending_delete_doc,
    {
        self.editor = None;
        self.pending_default_confirm = None;
    }

    /// A click on the row of `file_name`: selects it, or clears the selection when it was
    /// the selected one.
    pub fn toggle_selection(&mut self, file_name: &str)
        ensures
            match old(self).selected_doc {
                Some(s) => if s@ == file_name@ {
                    final(self).selected_doc is None
                } else {
                    final(self).selected_doc is Some && final(self).selected_doc->0@ == file_name@
                },
                None => final(self).selected_doc is Some && final(self).selected_doc->0@
                    == file_name@,
            },
            final(self).docs == old(self).docs,
            final(self).editor == old(self).editor,
            final(self).preview == old(self).preview,
    {
        let was_selected = match &self.selected_doc {
            Some(s) => str_eq(s.as_str(), file_name),
            None => false,
        };
        if was_selected {
            self.selected_doc = None;
        } else {
            self.selected_doc = Some(file_name.to_owned());
        }
    }

    /// After `doc`'s file was removed: its selection and a preview of its path go away,
    /// and the delete confirmation closes.
    pub fn finish_delete(&mut self, doc: &WorkspaceMarkdownDoc)
        ensures
            final(self).selected_doc == (match old(self).selected_doc {
                Some(s) => if s@ == doc.file_name@ {
                    None
                } else {
                    Some(s)
                },
                None => None,
            }),
            final(self).preview == (match old(self).preview {
                Some(p) => if markdown::same_path(p.path@, doc.path@) {
                    None
                } else {
                    Some(p)
                },
                None => None,
            }),
            final(self).pending_delete_doc is None,
            final(self).docs == old(self).docs,
            final(self).editor == old(self).editor,
            final(self).pending_default_confirm == old(self).pending_default_confirm,
    {
        let drop_selection = match &self.selected_doc {
            Some(s) => *s == doc.file_name,
            None => false,
        };
        if drop_selection {
            self.selected_doc = None;
        }
        let drop_preview = match &self.preview {
            Some(p) => paths_equal(p.path.as_str(), doc.path.as_str()),
            None => false,
        };
        if drop_preview {
            self.preview = None;
        }
        self.pending_delete_doc = None;
    }
}

impl Default for ProfilePanel {
    fn default() -> (p: Self)
        ensures
            p.workspace_dir is None,
            p.docs@.len() == 0,
            p.selected_doc is None,
            p.system_prompt_preview@ == Seq::<char>::empty(),
            !p.system_prompt_preview_loading,
            !p.system_prompt_preview_waiting,
            p.editor is None,
            p.preview is None,
            !p.create_form.open,
            !p.loaded,
            p.pending_default_confirm is None,
            p.pending_delete_doc is None,
    {
        ProfilePanel::new()
    }
}

/// The notice for a file that could not be read.
pub fn read_error_notice(path: &str, err: &str) -> (r: String)
    ensures
        r@ == "Failed to read "@ + path@ + ": "@ + err@,
{
    let head = concat_str("Failed to read ", path);
    let tail = concat_str(": ", err);
    let r = concat_str(head.as_str(), tail.as_str());
    assert(r@ =~= "Failed to read "@ + path@ + ": "@ + err@);
    r
}


// ---------------------------------------------------------------------------
// Listing the workspace markdown files
// ---------------------------------------------------------------------------

/// A directory entry of the workspace, with what the listing read of it.
#[derive(Debug)]
pub struct WorkspaceEntry {
    pub path: String,
    pub file_name: String,
    pub is_file: bool,
    pub content: String,
    pub modified_label: String,
    pub size_bytes: u64,
}

/// Whether an entry is listed: a regular file whose extension is `md` in any case.
pub open spec fn is_doc_entry(e: WorkspaceEntry) -> bool {
    e.is_file && markdown::is_markdown(e.path@)
}

/// Whether a directory entry is listed on the page.
pub fn is_workspace_doc(is_file: bool, path: &str) -> (r: bool)
    ensures
        r == (is_file && markdown::is_markdown(path@)),
{
    is_file && is_markdown_path(path)
}

/// The listed entries, in directory order.
pub open spec fn doc_entries(s: Seq<WorkspaceEntry>) -> Seq<WorkspaceEntry>
    decreases s.len(),
{
    if s.len() == 0 {
        s
    } else if is_doc_entry(s.last()) {
        doc_entries(s.drop_last()).push(s.last())
    } else {
        doc_entries(s.drop_last())
    }
}

/// The first position of `r` whose file name comes after `key`.
pub open spec fn first_after(r: Seq<WorkspaceEntry>, key: Seq<char>) -> nat
    decreases r.len(),
{
    if r.len() == 0 {
        0
    } else if !text::seq_le(r[0].file_name@, key) {
        0
    } else {
        1 + first_after(r.drop_first(), key)
    }
}

/// `s` in file-name order; entries with equal names keep their order (a stable sort).
pub open spec fn sorted_by_name(s: Seq<WorkspaceEntry>) -> Seq<WorkspaceEntry>
    decreases s.len(),
{
    if s.len() == 0 {
        s
    } else {
        let r = sorted_by_name(s.drop_last());
        r.insert(first_after(r, s.last().file_name@) as int, s.last())
    }
}

/// Whether the file names of `r` never decrease.
pub open spec fn names_sorted(r: Seq<WorkspaceEntry>) -> bool {
    forall|i: int, j: int|
        0 <= i < j < r.len() ==> text::seq_le(#[trigger] r[i].file_name@, #[trigger] r[j].file_name@)
}

/// The document the page lists for an entry.
pub open spec fn doc_of(d: WorkspaceMarkdownDoc, e: WorkspaceEntry) -> bool {
    &&& d.file_name == e.file_name
    &&& d.path == e.path
    &&& d.summary@ == markdown::summary_of_lines(text::lines_of(e.content@))
    &&& d.modified_label == e.modified_label
    &&& d.size_bytes == e.size_bytes
}

proof fn lemma_first_after(r: Seq<WorkspaceEntry>, key: Seq<char>)
    ensures
        first_after(r, key) <= r.len(),
        forall|k: int| 0 <= k < first_after(r, key) ==> text::seq_le(#[trigger] r[k].file_name@, key),
        first_after(r, key) < r.len() ==> !text::seq_le(r[first_after(r, key) as int].file_name@, key),
    decreases r.len(),
{
    if r.len() > 0 && text::seq_le(r[0].file_name@, key) {
        lemma_first_after(r.drop_first(), key);
        assert forall|k: int| 0 <= k < first_after(r, key) implies text::seq_le(
            #[trigger] r[k].file_name@,
            key,
        ) by {
            if k > 0 {
                assert(r[k] == r.drop_first()[k - 1]);
            }
        }
    }
}

/// The listing is a reordering of what it lists, and it is in file-name order.
pub proof fn lemma_sorted_by_name(s: Seq<WorkspaceEntry>)
    ensures
        sorted_by_name(s).to_multiset() == s.to_multiset(),
        sorted_by_name(s).len() == s.len(),
        names_sorted(sorted_by_name(s)),
    decreases s.len(),
{
    if s.len() > 0 {
        let r = sorted_by_name(s.drop_last());
        let x = s.last();
        let key = x.file_name@;
        let p = first_after(r, key) as int;
        lemma_sorted_by_name(s.drop_last());
        lemma_first_after(r, key);
        let out = r.insert(p, x);
        vstd::seq_lib::to_multiset_insert(r, p, x);
        assert(s =~= s.drop_last().push(x));
        vstd::seq_lib::to_multiset_build(s.drop_last(), x);
        assert forall|i: int, j: int| 0 <= i < j < out.len() implies text::seq_le(
            #[trigger] out[i].file_name@,
            #[trigger] out[j].file_name@,
        ) by {
            if j < p {
                assert(out[i] == r[i] && out[j] == r[j]);
            } else if j == p {
                assert(out[i] == r[i]);
            } else if i < p {
                assert(out[i] == r[i] && out[j] == r[j - 1]);
                text::lemma_seq_le_total(r[p].file_name@, key);
                if p < j - 1 {
                    text::lemma_seq_le_trans(key, r[p].file_name@, r[j - 1].file_name@);
                }
                text::lemma_seq_le_trans(r[i].file_name@, key, r[j - 1].file_name@);
            } else if i == p {
                assert(out[j] == r[j - 1]);
                text::lemma_seq_le_total(r[p].file_name@, key);
                if p < j - 1 {
                    text::lemma_seq_le_trans(key, r[p].file_name@, r[j - 1].file_name@);
                }
            } else {
                assert(out[i] == r[i - 1] && out[j] == r[j - 1]);
            }
        }
    }
}

/// Where `e` goes in the name-ordered `r`: after every entry whose name is not later.
fn insert_position(r: &Vec<WorkspaceEntry>, e: &WorkspaceEntry) -> (p: usize)
    ensures
        p == first_after(r@, e.file_name@),
        p <= r@.len(),
{
    let mut p: usize = 0;
    assert(r@.skip(0) =~= r@);
    while p < r.len() && str_le(r[p].file_name.as_str(), e.file_name.as_str())
        invariant
            p <= r.len(),
            first_after(r@, e.file_name@) == p + first_after(r@.skip(p as int), e.file_name@),
        decreases r.len() - p,
    {
        assert(r@.skip(p as int).drop_first() =~= r@.skip(p + 1));
        assert(r@.skip(p as int)[0] == r@[p as int]);
        p = p + 1;
    }
    if p < r.len() {
        assert(r@.skip(p as int)[0] == r@[p as int]);
    }
    p
}

/// The documents the page lists for the entries of the workspace directory: the markdown
/// files, summarized, in file-name order.
pub fn build_workspace_docs(entries: Vec<WorkspaceEntry>) -> (docs: Vec<WorkspaceMarkdownDoc>)
    ensures
        docs@.len() == sorted_by_name(doc_entries(entries@)).len(),
        forall|i: int|
            0 <= i < docs@.len() ==> doc_of(#[trigger] docs@[i], sorted_by_name(doc_entries(entries@))[i]),
{
    let ghost orig = entries@;
    let mut rest = entries;
    let mut sorted: Vec<WorkspaceEntry> = Vec::new();
    let ghost mut i: int = 0;
    assert(orig.take(0) =~= Seq::<WorkspaceEntry>::empty());
    assert(orig.skip(0) =~= orig);
    while rest.len() > 0
        invariant
            0 <= i <= orig.len(),
            rest@ == orig.skip(i),
            sorted@ == sorted_by_name(doc_entries(orig.take(i))),
        decreases rest.len(),
    {
        let e = rest.remove(0);
        proof {
            assert(e == orig[i]);
            assert(orig.take(i + 1).drop_last() =~= orig.take(i));
            assert(orig.take(i + 1).last() == e);
            assert(orig.skip(i).subrange(1, orig.skip(i).len() as int) =~= orig.skip(i + 1));
        }
        if is_workspace_doc(e.is_file, e.path.as_str()) {
            let p = insert_position(&sorted, &e);
            proof {
                assert(doc_entries(orig.take(i + 1)) == doc_entries(orig.take(i)).push(e));
                let d = doc_entries(orig.take(i)).push(e);
                assert(d.drop_last() =~= doc_entries(orig.take(i)));
            }
            sorted.insert(p, e);
        }
        proof {
            i = i + 1;
        }
    }
    assert(orig.take(i) =~= orig);
    let ghost order = sorted@;
    let mut docs: Vec<WorkspaceMarkdownDoc> = Vec::new();
    let ghost mut k: int = 0;
    assert(order.skip(0) =~= order);
    while sorted.len() > 0
        invariant
            0 <= k <= order.len(),
            sorted@ == order.skip(k),
            docs@.len() == k,
            forall|j: int| 0 <= j < k ==> doc_of(#[trigger] docs@[j], order[j]),
        decreases sorted.len(),
    {
        let e = sorted.remove(0);
        proof {
            assert(e == order[k]);
            assert(order.skip(k).subrange(1, order.skip(k).len() as int) =~= order.skip(k + 1));
        }
        let summary = summarize_markdown(e.content.as_str());
        docs.push(
            WorkspaceMarkdownDoc {
                file_name: e.file_name,
                path: e.path,
                summary,
                modified_label: e.modified_label,
                size_bytes: e.size_bytes,
            },
        );
        proof {
            k = k + 1;
        }
    }
    docs
}

} // verus!
