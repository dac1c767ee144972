use vstd::prelude::*;

verus! {
/// The nine rows of the face shared by the backs of all cards.
pub const BACK_ROWS: [&'static str; 9] = [
    r#"┌────────────┐"#,
    r#"│╳╳╳╳╳╳╳╳╳╳╳╳│"#,
    r#"│╳╳╳╳╳╳╳╳╳╳╳╳│"#,
    r#"│╳╳╳╳╳╳╳╳╳╳╳╳│"#,
    r#"│╳CARDASCII!╳│"#,
    r#"│╳╳╳╳╳╳╳╳╳╳╳╳│"#,
    r#"│╳╳╳╳╳╳╳╳╳╳╳╳│"#,
    r#"│╳╳╳╳╳╳╳╳╳╳╳╳│"#,
    r#"└────────────┘"#,
];

/// The nine rows of each card's face, in the order in which the deck is loaded.
pub const FACE_ROWS: [[&'static str; 9]; 50] = [
    [
        r#"┌────────────┐"#,
        r#"│J    o   o  │"#,
        r#"│O  o |\  |\ │"#,
        r#"│K  |\/_|/_| │"#,
        r#"│E |;  x  o| │"#,
        r#"│R  \    _|  │"#,
        r#"│   | `-/    │"#,
        r#"│            │"#,
        r#"└────────────┘"#,
    ],
    [
        r#"┌────────────┐"#,
        r#"│J    o   o  │"#,
        r#"│O  o |\  |\ │"#,
        r#"│K  |\/_|/_| │"#,
        r#"│E |;  x  o| │"#,
        r#"│R  \    _|  │"#,
        r#"│   | `-/    │"#,
        r#"│            │"#,
        r#"└────────────┘"#,
    ],
    [
        r#"┌──  ────  ──┐"#,
        r#"│12  /┼^^^^\ │"#,
        r#"│|\ (o_.o   )│"#,
        r#"│ \\ \     / │"#,
        r#"│ _\\_-&---\ │"#,
        r#"│   B .@.   \│"#,
        r#"│  /  |@|    │"#,
        r#"│ /   |@|  12│"#,
        r#"└──  ────  ──┘"#,
    ],
    [
        r#"┌──  ────  ──┐"#,
        r#"│11    ┌─@──┐│"#,
        r#"│|\    (o_ o)│"#,
        r#"│ \\   /    \│"#,
        r#"│ _\\_D__D   │"#,
        r#"│   B(o  o)__│"#,
        r#"│    /  /    │"#,
        r#"│   (..) \ 11│"#,
        r#"└──  ────  ──┘"#,
    ],
    [
        r#"┌──  ────  ──┐"#,
        r#"│10   ┌@───┐ │"#,
        r#"│     │____│ │"#,
        r#"│ |\  (o_ o) │"#,
        r#"│  \\ /    \ │"#,
        r#"│  _\\_    / │"#,
        r#"│    B \  /B │"#,
        r#"│       || 10│"#,
        r#"└──  ────  ──┘"#,
    ],
    [
        r#"┌──  ────  ──┐"#,
        r#"│9           │"#,
        r#"│            │"#,
        r#"│   |\       │"#,
        r#"│    \\      │"#,
        r#"│    _\\_    │"#,
        r#"│      \     │"#,
        r#"│           9│"#,
        r#"└──  ────  ──┘"#,
    ],
    [
        r#"┌──  ────  ──┐"#,
        r#"│8           │"#,
        r#"│            │"#,
        r#"│   |\       │"#,
        r#"│    \\      │"#,
        r#"│    _\\_    │"#,
        r#"│      \     │"#,
        r#"│           8│"#,
        r#"└──  ────  ──┘"#,
    ],
    [
        r#"┌──  ────  ──┐"#,
        r#"│7           │"#,
        r#"│            │"#,
        r#"│   |\       │"#,
        r#"│    \\      │"#,
        r#"│    _\\_    │"#,
        r#"│      \     │"#,
        r#"│           7│"#,
        r#"└──  ────  ──┘"#,
    ],
    [
        r#"┌──  ────  ──┐"#,
        r#"│6           │"#,
        r#"│            │"#,
        r#"│   |\       │"#,
        r#"│    \\      │"#,
        r#"│    _\\_    │"#,
        r#"│      \     │"#,
        r#"│           6│"#,
        r#"└──  ────  ──┘"#,
    ],
    [
        r#"┌──  ────  ──┐"#,
        r#"│5           │"#,
        r#"│            │"#,
        r#"│   |\       │"#,
        r#"│    \\      │"#,
        r#"│    _\\_    │"#,
        r#"│      \     │"#,
        r#"│           5│"#,
        r#"└──  ────  ──┘"#,
    ],
    [
        r#"┌──  ────  ──┐"#,
        r#"│4           │"#,
        r#"│            │"#,
        r#"│   |\       │"#,
        r#"│    \\      │"#,
        r#"│    _\\_    │"#,
        r#"│      \     │"#,
        r#"│           4│"#,
        r#"└──  ────  ──┘"#,
    ],
    [
        r#"┌──  ────  ──┐"#,
        r#"│3           │"#,
        r#"│            │"#,
        r#"│   |\       │"#,
        r#"│    \\      │"#,
        r#"│    _\\_    │"#,
        r#"│      \     │"#,
        r#"│           3│"#,
        r#"└──  ────  ──┘"#,
    ],
    [
        r#"┌──  ────  ──┐"#,
        r#"│2           │"#,
        r#"│            │"#,
        r#"│   |\       │"#,
        r#"│    \\      │"#,
        r#"│    _\\_    │"#,
        r#"│      \     │"#,
        r#"│           2│"#,
        r#"└──  ────  ──┘"#,
    ],
    [
        r#"┌──  ────  ──┐"#,
        r#"│1           │"#,
        r#"│            │"#,
        r#"│   |\       │"#,
        r#"│    \\      │"#,
        r#"│    _\\_    │"#,
        r#"│      \     │"#,
        r#"│           1│"#,
        r#"└──  ────  ──┘"#,
    ],
    [
        r#"┌─  ──  ──  ─┐"#,
        r#"│12  /┼^^^^\ │"#,
        r#"│.-.(o_.o   )│"#,
        r#"│(  )\     / │"#,
        r#"│ ( )/-&---\ │"#,
        r#"│  () .@.   \│"#,
        r#"│  /  |@|    │"#,
        r#"│ /   |@|  12│"#,
        r#"└─  ──  ──  ─┘"#,
    ],
    [
        r#"┌─  ──  ──  ─┐"#,
        r#"│11    ┌─@──┐│"#,
        r#"│.-.   (o_ o)│"#,
        r#"│(  )  /    \│"#,
        r#"│ ( ) D__D   │"#,
        r#"│  ()(o  o)__│"#,
        r#"│    /  /    │"#,
        r#"│   (..) \ 11│"#,
        r#"└─  ──  ──  ─┘"#,
    ],
    [
        r#"┌─  ──  ──  ─┐"#,
        r#"│10   ┌@───┐ │"#,
        r#"│.-.  │____│ │"#,
        r#"│(  ) (o_ o) │"#,
        r#"│ ( ) /    \ │"#,
        r#"│  ()/\    / │"#,
        r#"│      \  /B │"#,
        r#"│       || 10│"#,
        r#"└─  ──  ──  ─┘"#,
    ],
    [
        r#"┌─  ──  ──  ─┐"#,
        r#"│9           │"#,
        r#"│            │"#,
        r#"│    .-.     │"#,
        r#"│    (  )    │"#,
        r#"│     ( )    │"#,
        r#"│      ()    │"#,
        r#"│           9│"#,
        r#"└─  ──  ──  ─┘"#,
    ],
    [
        r#"┌─  ──  ──  ─┐"#,
        r#"│8           │"#,
        r#"│            │"#,
        r#"│    .-.     │"#,
        r#"│    (  )    │"#,
        r#"│     ( )    │"#,
        r#"│      ()    │"#,
        r#"│           8│"#,
        r#"└─  ──  ──  ─┘"#,
    ],
    [
        r#"┌─  ──  ──  ─┐"#,
        r#"│7           │"#,
        r#"│            │"#,
        r#"│    .-.     │"#,
        r#"│    (  )    │"#,
        r#"│     ( )    │"#,
        r#"│      ()    │"#,
        r#"│           7│"#,
        r#"└─  ──  ──  ─┘"#,
    ],
    [
        r#"┌─  ──  ──  ─┐"#,
        r#"│6           │"#,
        r#"│            │"#,
        r#"│    .-.     │"#,
        r#"│    (  )    │"#,
        r#"│     ( )    │"#,
        r#"│      ()    │"#,
        r#"│           6│"#,
        r#"└─  ──  ──  ─┘"#,
    ],
    [
        r#"┌─  ──  ──  ─┐"#,
        r#"│5           │"#,
        r#"│            │"#,
        r#"│    .-.     │"#,
        r#"│    (  )    │"#,
        r#"│     ( )    │"#,
        r#"│      ()    │"#,
        r#"│           5│"#,
        r#"└─  ──  ──  ─┘"#,
    ],
    [
        r#"┌─  ──  ──  ─┐"#,
        r#"│4           │"#,
        r#"│            │"#,
        r#"│    .-.     │"#,
        r#"│    (  )    │"#,
        r#"│     ( )    │"#,
        r#"│      ()    │"#,
        r#"│           4│"#,
        r#"└─  ──  ──  ─┘"#,
    ],
    [
        r#"┌─  ──  ──  ─┐"#,
        r#"│3           │"#,
        r#"│            │"#,
        r#"│    .-.     │"#,
        r#"│    (  )    │"#,
        r#"│     ( )    │"#,
        r#"│      ()    │"#,
        r#"│           3│"#,
        r#"└─  ──  ──  ─┘"#,
    ],
    [
        r#"┌─  ──  ──  ─┐"#,
        r#"│2           │"#,
        r#"│            │"#,
        r#"│    .-.     │"#,
        r#"│    (  )    │"#,
        r#"│     ( )    │"#,
        r#"│      ()    │"#,
        r#"│           2│"#,
        r#"└─  ──  ──  ─┘"#,
    ],
    [
        r#"┌─  ──  ──  ─┐"#,
        r#"│1           │"#,
        r#"│            │"#,
        r#"│    .-.     │"#,
        r#"│    (  )    │"#,
        r#"│     ( )    │"#,
        r#"│      ()    │"#,
        r#"│           1│"#,
        r#"└─  ──  ──  ─┘"#,
    ],
    [
        r#"┌────────────┐"#,
        r#"│12  /┼^^^^\ │"#,
        r#"│   (o_.o   )│"#,
        r#"│ .-.\     / │"#,
        r#"│( O )-&---\ │"#,
        r#"│B`-` .@.   \│"#,
        r#"│  /  |@|    │"#,
        r#"│ /   |@|  12│"#,
        r#"└────────────┘"#,
    ],
    [
        r#"┌────────────┐"#,
        r#"│11    ┌─@──┐│"#,
        r#"│ .-.  (o_ o)│"#,
        r#"│( O ) /    \│"#,
        r#"│ `-` D__D   │"#,
        r#"│    (o  o)__│"#,
        r#"│    /  /    │"#,
        r#"│   (..) \ 11│"#,
        r#"└────────────┘"#,
    ],
    [
        r#"┌────────────┐"#,
        r#"│10   ┌@───┐ │"#,
        r#"│     │____│ │"#,
        r#"│ .-. (o_ o) │"#,
        r#"│( O )/    \ │"#,
        r#"│ `-` \    / │"#,
        r#"│      \  /B │"#,
        r#"│       || 10│"#,
        r#"└────────────┘"#,
    ],
    [
        r#"┌────────────┐"#,
        r#"│9           │"#,
        r#"│            │"#,
        r#"│    .-.     │"#,
        r#"│   ( O )    │"#,
        r#"│    `-`     │"#,
        r#"│            │"#,
        r#"│           9│"#,
        r#"└────────────┘"#,
    ],
    [
        r#"┌────────────┐"#,
        r#"│8           │"#,
        r#"│            │"#,
        r#"│    .-.     │"#,
        r#"│   ( O )    │"#,
        r#"│    `-`     │"#,
        r#"│            │"#,
        r#"│           8│"#,
        r#"└────────────┘"#,
    ],
    [
        r#"┌────────────┐"#,
        r#"│7           │"#,
        r#"│            │"#,
        r#"│    .-.     │"#,
        r#"│   ( O )    │"#,
        r#"│    `-`     │"#,
        r#"│            │"#,
        r#"│           7│"#,
        r#"└────────────┘"#,
    ],
    [
        r#"┌────────────┐"#,
        r#"│6           │"#,
        r#"│            │"#,
        r#"│    .-.     │"#,
        r#"│   ( O )    │"#,
        r#"│    `-`     │"#,
        r#"│            │"#,
        r#"│           6│"#,
        r#"└────────────┘"#,
    ],
    [
        r#"┌────────────┐"#,
        r#"│5           │"#,
        r#"│            │"#,
        r#"│    .-.     │"#,
        r#"│   ( O )    │"#,
        r#"│    `-`     │"#,
        r#"│            │"#,
        r#"│           5│"#,
        r#"└────────────┘"#,
    ],
    [
        r#"┌────────────┐"#,
        r#"│4           │"#,
        r#"│            │"#,
        r#"│    .-.     │"#,
        r#"│   ( O )    │"#,
        r#"│    `-`     │"#,
        r#"│            │"#,
        r#"│           4│"#,
        r#"└────────────┘"#,
    ],
    [
        r#"┌────────────┐"#,
        r#"│3           │"#,
        r#"│            │"#,
        r#"│    .-.     │"#,
        r#"│   ( O )    │"#,
        r#"│    `-`     │"#,
        r#"│            │"#,
        r#"│           3│"#,
        r#"└────────────┘"#,
    ],
    [
        r#"┌────────────┐"#,
        r#"│2           │"#,
        r#"│            │"#,
        r#"│    .-.     │"#,
        r#"│   ( O )    │"#,
        r#"│    `-`     │"#,
        r#"│            │"#,
        r#"│           2│"#,
        r#"└────────────┘"#,
    ],
    [
        r#"┌────────────┐"#,
        r#"│1           │"#,
        r#"│            │"#,
        r#"│    .-.     │"#,
        r#"│   ( O )    │"#,
        r#"│    `-`     │"#,
        r#"│            │"#,
        r#"│           1│"#,
        r#"└────────────┘"#,
    ],
    [
        r#"┌────    ────┐"#,
        r#"│12  /┼^^^^\ │"#,
        r#"│   (o_.o   )│"#,
        r#"│ ___\     / │"#,
        r#"│(___)-&---\ │"#,
        r#"│B\_/ .@.   \│"#,
        r#"│  /  |@|    │"#,
        r#"│ /   |@|  12│"#,
        r#"└────    ────┘"#,
    ],
    [
        r#"┌────    ────┐"#,
        r#"│11    ┌─@──┐│"#,
        r#"│ ___  (o_ o)│"#,
        r#"│(___) /    \│"#,
        r#"│ \_/ D__D   │"#,
        r#"│    (o  o)__│"#,
        r#"│    /  /    │"#,
        r#"│   (..) \ 11│"#,
        r#"└────    ────┘"#,
    ],
    [
        r#"┌────    ────┐"#,
        r#"│10   ┌@───┐ │"#,
        r#"│     │____│ │"#,
        r#"│ ___ (o_ o) │"#,
        r#"│(___)/    \ │"#,
        r#"│ \_/ \    / │"#,
        r#"│      \  /B │"#,
        r#"│       || 10│"#,
        r#"└────    ────┘"#,
    ],
    [
        r#"┌────    ────┐"#,
        r#"│9           │"#,
        r#"│            │"#,
        r#"│    ___     │"#,
        r#"│   (___)    │"#,
        r#"│    \_/     │"#,
        r#"│            │"#,
        r#"│           9│"#,
        r#"└────    ────┘"#,
    ],
    [
        r#"┌────    ────┐"#,
        r#"│8           │"#,
        r#"│            │"#,
        r#"│    ___     │"#,
        r#"│   (___)    │"#,
        r#"│    \_/     │"#,
        r#"│            │"#,
        r#"│           8│"#,
        r#"└────    ────┘"#,
    ],
    [
        r#"┌────    ────┐"#,
        r#"│7           │"#,
        r#"│            │"#,
        r#"│    ___     │"#,
        r#"│   (___)    │"#,
        r#"│    \_/     │"#,
        r#"│            │"#,
        r#"│           7│"#,
        r#"└────    ────┘"#,
    ],
    [
        r#"┌────    ────┐"#,
        r#"│6           │"#,
        r#"│            │"#,
        r#"│    ___     │"#,
        r#"│   (___)    │"#,
        r#"│    \_/     │"#,
        r#"│            │"#,
        r#"│           6│"#,
        r#"└────    ────┘"#,
    ],
    [
        r#"┌────    ────┐"#,
        r#"│5           │"#,
        r#"│            │"#,
        r#"│    ___     │"#,
        r#"│   (___)    │"#,
        r#"│    \_/     │"#,
        r#"│            │"#,
        r#"│           5│"#,
        r#"└────    ────┘"#,
    ],
    [
        r#"┌────    ────┐"#,
        r#"│4           │"#,
        r#"│            │"#,
        r#"│    ___     │"#,
        r#"│   (___)    │"#,
        r#"│    \_/     │"#,
        r#"│            │"#,
        r#"│           4│"#,
        r#"└────    ────┘"#,
    ],
    [
        r#"┌────    ────┐"#,
        r#"│3           │"#,
        r#"│            │"#,
        r#"│    ___     │"#,
        r#"│   (___)    │"#,
        r#"│    \_/     │"#,
        r#"│            │"#,
        r#"│           3│"#,
        r#"└────    ────┘"#,
    ],
    [
        r#"┌────    ────┐"#,
        r#"│2           │"#,
        r#"│            │"#,
        r#"│    ___     │"#,
        r#"│   (___)    │"#,
        r#"│    \_/     │"#,
        r#"│            │"#,
        r#"│           2│"#,
        r#"└────    ────┘"#,
    ],
    [
        r#"┌────    ────┐"#,
        r#"│1           │"#,
        r#"│            │"#,
        r#"│    ___     │"#,
        r#"│   (___)    │"#,
        r#"│    \_/     │"#,
        r#"│            │"#,
        r#"│           1│"#,
        r#"└────    ────┘"#,
    ],
];

} // verus!
