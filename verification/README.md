# elm_pair

The verified core of elm-pair, an assistant that follows the programmer's
edits to Elm code and makes the changes that go with them.

`src/` is checked by Verus. It holds:

- `syntax`, `tree_diff`, `change`: reading the tree-sitter syntax tree of
  Elm code, locating its changed part level by level, and recognizing the
  kind of edit from the node kinds involved.
- `module_reader`: reading a module's exposing list, declarations, exports
  and imports from its syntax tree.
- `module_model`, `qualify`, `free_names`, `changed_name`, `import_edits`,
  `respond`: what the refactors read of a module (its exposing list,
  declarations, imports, names and scopes), the refactors that qualify an
  imported name, free names for reuse, follow a rename across modules and
  follow edits of imports, and the choice of refactor for an edit.
- `names`, `exports`, `renaming`, `imports`: the names imports bring into
  scope, what an edit of an exposing list qualifies and unqualifies, free
  names for renames, scopes, and imports to add.
- `idat`: reading module interfaces from the compiler's `i.dat` file.
- `bytes`, `msgpack`, `neovim`, `vscode`, `editors`: the editor protocols.
- `licensing`: reading and checking license keys.
- `analysis`, `compilation`, `compiler`, `project`, `module_name`,
  `elm_json`, `simulation`, `sized_stack`, `intersperse`, `range`.

`app/` is the daemon around it: sockets, threads, processes and files.
`tests/` exercises the library.
