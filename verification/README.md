# shiba_preview

The verified core of Shiba, a Markdown previewer that follows a document as
it is edited in another program.

- `src/` is the library, verified with Verus: the parse of a document with
  pulldown-cmark (`cmark`) and the Markdown render tree (`render`,
  `serializer`, `events`, `tree`), change detection between two
  versions of a document (`bytes`, `content`), search in the rendered text
  (`search`), links and emoji (`links`, `emoji`, `sanitizer`), the navigation
  history (`history`), the windows and their previews (`window`, `preview`),
  where a page's navigation leads (`renderer`), the menus of the menu bar
  and whether a window shows it (`menu`),
  the command line and configuration (`cli`, `config`), file watching
  (`watcher`), messages between processes (`process_singleton`), and the
  application itself (`shiba`): a state machine that takes an event and
  gives back the actions to perform, such as reading a document into a
  window or telling a page to scroll.
- `app/` is a command line front end: it parses the command line with
  lexopt, reads a Markdown file, and prints the render tree that a preview
  window evaluates.
- `tests/` holds the tests.
