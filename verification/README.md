# LinnStrument CLI

A command-line companion for the LinnStrument that backs up and restores
sequencer projects and instrument settings over USB serial. Every decision that
it takes is made by a library that is verified with
[Verus](https://github.com/verus-lang/verus).

- `src/` is the library. It opens no port and writes no file: connecting
  (`connect`), saving (`backup`) and loading (`restore`) are state machines that
  ask for an action and are told what came of it.
- `src/*_laws.rs` states and proves what holds of whole conversations: that a
  connection is made only to an instrument that greets back, that an interrupted
  backup leaves the earlier file alone, that every backup and every restore ends,
  and that loading a file gives the instrument back what was saved from it.
- `app/` is the program: arguments, the serial line, the clock, files and
  messages.
- `tests/` runs the library against scripted instruments.

## Files

`[version: 1 byte] [size: 4 bytes LE] [data] [crc32: 4 bytes LE]`, for projects
and settings alike. The settings are saved without the version byte that leads
them on the wire, since the header has it.

## Versions

Settings of version 9 can be saved, without CRCs on the wire, but not restored.
Projects of version 9 can be neither saved nor restored, and nothing older can.
Everything from version 10 on is checked block by block and can be restored. A
block that fails its check is sent again up to five times, and checked each time;
after that the transfer fails, and no file is written.

## Finding the instrument

The port with the USB IDs `F055:0070` is taken, wherever in the list it stands.
Where there is none, the first port whose USB names look like a LinnStrument is.
