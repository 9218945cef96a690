# pdf_organizer

A desktop tool for sorting PDFs: the user keeps destination folders under
unique nicknames, opens a folder of PDFs, previews every page, and moves each
file into a destination.

`src/` is the verified library (Verus):

- `text` — Unicode white space, trimming, and the lexicographic order of texts.
- `sorted_map` — a text-keyed map kept in ascending key order (the saved
  destinations and the render table).
- `destination` — saving, naming, removing destinations, storing them, and
  starting a move.
- `file_move` — moving a file as a sequence of file-system requests: refuse an
  existing target, rename, or copy then remove.
- `pdf` — which files are PDFs, page numbering, render settings, render jobs.
- `organizer` — the application state and `update`, which turns each message
  into the new state and a `Command` for the caller.
- `laws` — properties across operations (uniqueness of nicknames, stale
  results ignored, generations never going back, and more).
- `paths` — the two std path operations the library relies on, trusted, with
  contracts for the paths on which every platform agrees.

Paths are plain text in the library and are compared as text. What a file
name is depends on the platform: `\` and drive prefixes such as `C:` mean
something on Windows only. So the contracts fix the display name, the PDF
choice and the move target for paths made with `/` (where `:` may appear
anywhere but as a leading drive), and for Windows-form paths such as
`C:\Users\You\scan.pdf` they state less: the display name ends in the text
after the last separator and the PDF choice is fixed, but the move target is
not stated.

`app/` is the program around it: the iced window, folder pickers, reading
folders, carrying out file moves, rendering pages with PDFium, and keeping the
destinations in `PDFOrganizer/destinations.json` under the local data folder.
