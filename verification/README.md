# file_tree

A modal file tree and a welcome screen for a terminal editor, verified with
Verus.

The library in `src/` holds the decisions: which rows the tree shows, where the
cursor is, what a key does, what follows when the file system has answered, what
is drawn where. It touches neither the file system nor the screen. It hands out
a `Task` and is told how that went with a `Reply`.

| key | |
| --- | --- |
| `j` `k` `Down` `Up` `C-n` `C-p` | move, wrapping |
| `g` `G` | first row, last row |
| `C-d` `C-u` `PageDown` `PageUp` | half a page, stopping at the ends |
| `l` `o` `Enter` `Right` | expand or collapse a directory, open a file |
| `h` `Left` | collapse, or step out to the parent |
| `a` `A` | create file, create directory |
| `r` | rename |
| `d` | delete, confirmed with `y` |
| `Esc` `C-c` | close |

The welcome screen has a banner, a menu and a footer. `j`, `k` and the arrows
move in the menu, Enter and the hotkeys run an action, and any other key takes
the screen away and goes on to the editor. Once a document is open the screen
stops drawing and retires.

Every public function states what it returns or changes over a mathematical
model: a tree is a sequence of rows in display order with a cursor, a file tree
adds the scroll offset, the open prompt or question, and the previews. The laws
in `model_laws.rs`, `component_laws.rs` and `reveal_laws.rs`, and beside the
functions they are about, hold for every state: nothing is created or renamed
over what exists, only a `y` deletes, expanding and collapsing never leave the
cursor on another file, collapsing undoes expanding, and the tree opens onto the
file that is being edited. Reading the root again is the one thing that keeps
the cursor's place in the list rather than its file.

Paths are taken as their texts. What is relied on of `std` and of the `toml`
crate is stated in `path.rs`, `text.rs` and `config.rs`, and nowhere else.

`app/` puts the library to work as layers of the Helix editor.
