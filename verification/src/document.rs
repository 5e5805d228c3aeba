//! The editor's reactions to opening, saving and raw-editing a document, and to closing.
use vstd::prelude::*;
use crate::doc_edit::PathRename;
use crate::editor::{path_key, App, Selection, SelectionView};
use crate::model::{FileFormat, OpenApiSpec};
use crate::ordered_map::{find_key, has_key};
use crate::text::{cat, cat3, is_blank_spec, str_to_lowercase, unicode_lower_str};
use crate::yaml::{merge_view, merge_yaml, well_formed, YamlValue, YamlView};
use crate::codec::{read_yaml_tree, tags_named, tree_text, tree_text_of, yaml_tree_of};

verus! {

/// A file is JSON when its extension, lowercased, is `json`; YAML otherwise.
pub fn format_for_extension(ext: &str) -> (f: FileFormat)
    ensures
        f == (if unicode_lower_str(ext@) == "json"@ {
            FileFormat::Json
        } else {
            FileFormat::Yaml
        }),
{
    let lower = str_to_lowercase(ext);
    if crate::text::str_eq(lower.as_str(), "json") {
        FileFormat::Json
    } else {
        FileFormat::Yaml
    }
}

/// Why a save failed.
pub enum SaveError {
    /// The document could not be turned into text.
    Serialize(String),
    /// The text could not be written.
    Write(String),
}

/// A request to close: the window may close exactly when nothing is unsaved; otherwise the
/// unsaved-changes dialog is shown. Nothing else changes.
pub open spec fn close_requested(old: App, new: App, close: bool) -> bool {
    &&& close == !old.dirty
    &&& new.show_exit_dialog == (old.dirty || old.show_exit_dialog)
    &&& new == (App { show_exit_dialog: new.show_exit_dialog, ..old })
}

/// "Don't Save": the changes are dropped and the dialog closes.
pub open spec fn close_discarded(old: App, new: App) -> bool {
    new == (App { dirty: false, show_exit_dialog: false, ..old })
}

/// After "Save": the dialog closes, and the window may close exactly when the save left
/// nothing unsaved.
pub open spec fn closed_after_save(old: App, new: App, close: bool) -> bool {
    &&& close == !old.dirty
    &&& new == (App { show_exit_dialog: false, ..old })
}

/// "Cancel": only the dialog closes.
pub open spec fn close_cancelled(old: App, new: App) -> bool {
    new == (App { show_exit_dialog: false, ..old })
}

/// After taking in a file that was read: on a successful parse the document, the tree `raw`
/// it was read as and its format replace the open ones, unmodified, showing the info; on a
/// parse error only the status reports it.
pub open spec fn loaded(
    old: App,
    new: App,
    file: Seq<char>,
    fmt: FileFormat,
    parsed: Result<OpenApiSpec, String>,
    raw: Option<YamlValue>,
) -> bool {
    match parsed {
        Ok(spec) => {
            &&& new.spec == Some(spec)
            &&& new.raw == raw
            &&& new.current_file matches Some(f) && f@ == file
            &&& new.format == fmt
            &&& !new.dirty
            &&& new.selection@ == SelectionView::Info
            &&& new.status@ == "Opened: "@ + file
            &&& new == (App {
                spec: new.spec,
                raw: new.raw,
                current_file: new.current_file,
                format: fmt,
                dirty: false,
                selection: new.selection,
                status: new.status,
                ..old
            })
        },
        Err(e) => {
            &&& new.status@ == "Parse error: "@ + e@
            &&& new == (App { status: new.status, ..old })
        },
    }
}

/// After taking in the raw editor's text once parsed: a document replaces the open one (the
/// tree `raw` the text reads as kept for saving), marked modified; a parse error is shown
/// under the editor.
pub open spec fn raw_applied(old: App, new: App, parsed: Result<OpenApiSpec, String>, raw: Option<YamlValue>) -> bool {
    match parsed {
        Ok(spec) => {
            &&& new.spec == Some(spec)
            &&& new.raw == raw
            &&& new.dirty
            &&& new.raw_editor_err@.len() == 0
            &&& new.status@ == "Applied raw editor changes."@
            &&& new == (App {
                spec: new.spec,
                raw: new.raw,
                dirty: true,
                raw_editor_err: new.raw_editor_err,
                status: new.status,
                ..old
            })
        },
        Err(e) => {
            &&& new.raw_editor_err@ == e@
            &&& new == (App { raw_editor_err: new.raw_editor_err, ..old })
        },
    }
}

/// After folding the document, as the tree `updated`, into the tree the file was read as:
/// a new document's tree is `updated` itself. Nothing else changes.
pub open spec fn prepared(old: App, new: App, updated: YamlView) -> bool {
    &&& new.raw matches Some(r) && r@ == (match old.raw {
        Some(o) => merge_view(o@, updated),
        None => updated,
    })
    &&& new == (App { raw: new.raw, ..old })
}

/// The view of a tree that may be absent.
pub open spec fn opt_tree(raw: Option<YamlValue>) -> Option<YamlView> {
    match raw {
        Some(t) => Some(t@),
        None => None,
    }
}

/// The text of the tree `tree` saved in the format `fmt`.
pub open spec fn saved_text_of(tree: YamlView, fmt: FileFormat) -> Option<Seq<char>> {
    tree_text_of(tree, fmt is Json)
}

impl App {
    /// Reading the file failed with the message `err`.
    pub fn read_failed(&mut self, err: &str)
        ensures
            final(self).status@ == "Error reading file: "@ + err@,
            *final(self) == (App { status: final(self).status, ..*old(self) }),
    {
        self.status = cat("Error reading file: ", err);
    }

    /// Takes in a file that was read: on a successful parse the document, the tree it was
    /// read as and its format replace the open ones, unmodified, showing the info; on a
    /// parse error only the status reports it.
    pub fn finish_load(
        &mut self,
        file: String,
        fmt: FileFormat,
        parsed: Result<OpenApiSpec, String>,
        raw: Option<YamlValue>,
    )
        ensures
            loaded(*old(self), *final(self), file@, fmt, parsed, raw),
    {
        match parsed {
            Ok(spec) => {
                self.raw = raw;
                self.status = cat("Opened: ", file.as_str());
                self.spec = Some(spec);
                self.current_file = Some(file);
                self.format = fmt;
                self.dirty = false;
                self.selection = Selection::Info;
            },
            Err(e) => {
                self.status = cat("Parse error: ", e.as_str());
            },
        }
    }

    /// Switches to the raw editor; with a document open, its text (`text`, the document
    /// written in the current format) fills the editor and any earlier parse error is
    /// cleared.
    pub fn open_raw_editor(&mut self, text: String)
        ensures
            final(self).selection@ == SelectionView::RawEditor,
            old(self).spec is Some ==> final(self).raw_editor_buf@ == text@ && final(self).raw_editor_err@.len() == 0,
            old(self).spec is None ==> final(self).raw_editor_buf == old(self).raw_editor_buf
                && final(self).raw_editor_err == old(self).raw_editor_err,
            *final(self) == (App {
                selection: final(self).selection,
                raw_editor_buf: final(self).raw_editor_buf,
                raw_editor_err: final(self).raw_editor_err,
                ..*old(self)
            }),
    {
        if self.spec.is_some() {
            self.raw_editor_buf = text;
            self.raw_editor_err = String::new();
        }
        self.selection = Selection::RawEditor;
    }

    /// Folds the document, as the tree `updated`, into the tree the file was read as, so
    /// that saving keeps the file's key order and extensions; a new document's tree is
    /// `updated` itself.
    pub fn prepare_save(&mut self, updated: YamlValue)
        ensures
            prepared(*old(self), *final(self), updated@),
    {
        match &mut self.raw {
            Some(r) => {
                merge_yaml(r, &updated);
            },
            None => {
                self.raw = Some(updated);
            },
        }
    }

    /// Takes in the text `content` read from `file` and the document serde read from it in
    /// `fmt` (`parsed`). On success the tree that serde_yaml reads from the text is kept,
    /// so that a later save keeps the file's structure; otherwise as `finish_load`.
    pub fn load_text(
        &mut self,
        file: String,
        fmt: FileFormat,
        content: &str,
        parsed: Result<OpenApiSpec, String>,
    )
        ensures
            loaded(*old(self), *final(self), file@, fmt, parsed, final(self).raw),
            parsed is Ok ==> opt_tree(final(self).raw) == yaml_tree_of(content@),
            parsed is Ok ==> (final(self).raw matches Some(t) ==> well_formed(t@)),
    {
        let raw = match &parsed {
            Ok(_) => read_yaml_tree(content),
            Err(_) => None,
        };
        self.finish_load(file, fmt, parsed, raw);
    }

    /// Takes in the document serde read from the raw editor's text (`parsed`). On success
    /// the tree that serde_yaml reads from that text is kept for saving; otherwise as
    /// `apply_raw_editor`.
    pub fn apply_raw_text(&mut self, parsed: Result<OpenApiSpec, String>)
        ensures
            raw_applied(*old(self), *final(self), parsed, final(self).raw),
            parsed is Ok ==> opt_tree(final(self).raw) == yaml_tree_of(old(self).raw_editor_buf@),
            parsed is Ok ==> (final(self).raw matches Some(t) ==> well_formed(t@)),
    {
        let raw = match &parsed {
            Ok(_) => read_yaml_tree(self.raw_editor_buf.as_str()),
            Err(_) => None,
        };
        self.apply_raw_editor(parsed, raw);
    }

    /// Folds the document, as the tree `updated`, into the tree the file was read as (see
    /// `prepare_save`) and writes the result in the format `fmt`: the text to save, or a
    /// serialization error. A tree with an unnamed tag cannot be written.
    pub fn save_text(&mut self, updated: YamlValue, fmt: FileFormat) -> (r: Result<String, SaveError>)
        ensures
            prepared(*old(self), *final(self), updated@),
            final(self).raw matches Some(t) && (if tags_named(t@) {
                match r {
                    Ok(text) => saved_text_of(t@, fmt) == Some(text@),
                    Err(e) => e is Serialize && saved_text_of(t@, fmt) is None,
                }
            } else {
                r matches Err(e) && e is Serialize
            }),
    {
        self.prepare_save(updated);
        let json = match fmt {
            FileFormat::Json => true,
            FileFormat::Yaml => false,
        };
        match &self.raw {
            Some(t) => match tree_text(t, json) {
                Ok(text) => Ok(text),
                Err(e) => Err(SaveError::Serialize(e)),
            },
            None => Err(SaveError::Serialize(String::new())),
        }
    }

    /// Takes in the outcome of writing the document to `file`: success leaves it
    /// unmodified; a failure is reported in the status.
    pub fn finish_save(&mut self, file: &str, outcome: Result<(), SaveError>)
        ensures
            match outcome {
                Ok(()) => {
                    &&& !final(self).dirty
                    &&& final(self).status@ == "Saved: "@ + file@
                    &&& *final(self) == (App { dirty: false, status: final(self).status, ..*old(self) })
                },
                Err(SaveError::Serialize(e)) => {
                    &&& final(self).status@ == "Serialization error: "@ + e@
                    &&& *final(self) == (App { status: final(self).status, ..*old(self) })
                },
                Err(SaveError::Write(e)) => {
                    &&& final(self).status@ == "Write error: "@ + e@
                    &&& *final(self) == (App { status: final(self).status, ..*old(self) })
                },
            },
    {
        match outcome {
            Ok(()) => {
                self.dirty = false;
                self.status = cat("Saved: ", file);
            },
            Err(SaveError::Serialize(e)) => {
                self.status = cat("Serialization error: ", e.as_str());
            },
            Err(SaveError::Write(e)) => {
                self.status = cat("Write error: ", e.as_str());
            },
        }
    }

    /// After "Save As" picked `file` in format `fmt`: the format is kept, and with a
    /// document open the file becomes the current one.
    pub fn saved_as(&mut self, file: String, fmt: FileFormat)
        ensures
            final(self).format == fmt,
            old(self).spec is Some ==> (final(self).current_file matches Some(f) && f@ == file@),
            old(self).spec is None ==> final(self).current_file == old(self).current_file,
            *final(self) == (App { format: fmt, current_file: final(self).current_file, ..*old(self) }),
    {
        self.format = fmt;
        if self.spec.is_some() {
            self.current_file = Some(file);
        }
    }

    /// Takes in the raw editor's text once parsed: a document replaces the open one (the
    /// tree `raw` the text reads as kept for saving), marked modified; a parse error is
    /// shown under the editor.
    pub fn apply_raw_editor(&mut self, parsed: Result<OpenApiSpec, String>, raw: Option<YamlValue>)
        ensures
            raw_applied(*old(self), *final(self), parsed, raw),
    {
        match parsed {
            Ok(spec) => {
                self.raw_editor_err = String::new();
                self.raw = raw;
                self.spec = Some(spec);
                self.dirty = true;
                self.status = String::from_str("Applied raw editor changes.");
            },
            Err(e) => {
                self.raw_editor_err = e;
            },
        }
    }

    /// The user asked to close: with unsaved changes the close is held back and the
    /// unsaved-changes dialog shown. Returns whether the window may close now.
    pub fn request_close(&mut self) -> (close: bool)
        ensures
            close_requested(*old(self), *final(self), close),
    {
        if self.dirty {
            self.show_exit_dialog = true;
            false
        } else {
            true
        }
    }

    /// "Don't Save" in the unsaved-changes dialog: the changes are dropped and the window
    /// closes.
    pub fn discard_and_close(&mut self)
        ensures
            close_discarded(*old(self), *final(self)),
    {
        self.dirty = false;
        self.show_exit_dialog = false;
    }

    /// After "Save" in the unsaved-changes dialog: the dialog closes, and so does the
    /// window when the save went through.
    pub fn close_after_save(&mut self) -> (close: bool)
        ensures
            closed_after_save(*old(self), *final(self), close),
    {
        self.show_exit_dialog = false;
        !self.dirty
    }

    /// "Cancel" in the unsaved-changes dialog: the dialog closes and the window stays.
    pub fn cancel_close(&mut self)
        ensures
            close_cancelled(*old(self), *final(self)),
    {
        self.show_exit_dialog = false;
    }

    /// The title shown in the menu bar: the document's title and version, with `*` while
    /// it has unsaved changes.
    pub fn title_line(&self) -> (r: String)
        ensures
            r@ == (match self.spec {
                Some(s) => s.info.title@ + " v"@ + s.info.version@ + (if self.dirty {
                    " *"@
                } else {
                    ""@
                }),
                None => "No file open"@,
            }),
    {
        match &self.spec {
            Some(s) => {
                let mut t = cat3(s.info.title.as_str(), " v", s.info.version.as_str());
                if self.dirty {
                    t.append(" *");
                } else {
                    proof {
                        reveal_strlit("");
                    }
                    assert(t@ =~= t@ + ""@);
                }
                t
            },
            None => String::from_str("No file open"),
        }
    }

    /// Goes to a search hit: selects it and clears the search.
    pub fn open_search_hit(&mut self, sel: Selection)
        ensures
            final(self).selection == sel,
            final(self).search_query@.len() == 0,
            *final(self) == (App { selection: sel, search_query: final(self).search_query, ..*old(self) }),
    {
        self.selection = sel;
        self.search_query = String::new();
    }

    /// Renames the selected path to the text `buf` (see `OpenApiSpec::rename_path`); a
    /// rename marks the document modified and selects the new key.
    pub fn rename_selected_path(&mut self, path: &str, buf: &str) -> (r: PathRename)
        ensures
            old(self).spec is None ==> r is Unchanged && *final(self) == *old(self),
            old(self).spec matches Some(os) ==> {
                &&& (!(r is Renamed) ==> *final(self) == *old(self))
                &&& (r matches PathRename::Renamed(k) ==> {
                    &&& k@ == path_key(buf@)
                    &&& !is_blank_spec(buf@) && buf@ != path@ && !has_key(os.paths@, path_key(buf@))
                    &&& (final(self).spec matches Some(ns) && ns == (OpenApiSpec { paths: ns.paths, ..os })
                        && ns.paths@ == (if has_key(os.paths@, path@) {
                        let i = find_key(os.paths@, path@);
                        os.paths@.update(i, (path_key(buf@), os.paths@[i].1))
                    } else {
                        os.paths@
                    }))
                    &&& final(self).dirty
                    &&& final(self).selection@ == SelectionView::Path(k@)
                    &&& crate::editor::only_doc_changed(*old(self), *final(self))
                })
                &&& (r is Unchanged <==> (is_blank_spec(buf@) || buf@ == path@))
                &&& (r is Conflict <==> (!(is_blank_spec(buf@) || buf@ == path@) && has_key(
                    os.paths@,
                    path_key(buf@),
                )))
            },
    {
        let r = match &mut self.spec {
            Some(spec) => spec.rename_path(path, buf),
            None => PathRename::Unchanged,
        };
        match &r {
            PathRename::Renamed(k) => {
                self.dirty = true;
                self.selection = Selection::Path(k.clone());
            },
            _ => {},
        }
        r
    }
}

} // verus!
