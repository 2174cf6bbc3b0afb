# rustfarm

A farm for XP and currency in Rainbow Six Siege, split in two.

`src/` is a Verus-verified library that makes every decision:

- `keys`: which scan code each tappable key sends, and the down/hold/up of a tap;
- `text`: numbers and keys written as `{}` and `{:?}` write them;
- `event`: the events the front end receives and the commands the robot gives;
- `games`: the `Game` trait, a dialogue of screen checks ending in commands;
- `siege`: the Siege robot's start-up and loop routines, and their laws;
- `order`, `registry`: games registered by name, listed in string order;
- `robot`: refusing unsupported games, the start countdown, finding the game;
- `tui`: the terminal front end's state, its reaction to events, its texts;
- `input`: the input reader's tick.

`app/` is the program around it: it reads the keyboard and the screen,
sends key events to Windows, draws the terminal and sleeps.
