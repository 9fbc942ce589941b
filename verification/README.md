# omavcam

Turns an Android phone into a webcam on Omarchy: a phone's camera is captured
over adb, written to a virtual video device, and appears to applications as an
ordinary webcam.

`src/` is the engine's logic, verified with Verus. It runs no command and opens
no socket. Every operation is a function from what the daemon holds and what
the outside has answered so far to what the daemon then holds, what it does
outside, and how the operation ends. `app/` is the program around it: it
performs each act once, in order, and hands the answer back.

| Module | What it is about |
|---|---|
| `protocol` | what clients are told, and the messages that tell it |
| `requests` | what a line from a client asks for, and how an operation goes forward |
| `operations` | everything a client can ask for, from its beginning to its end |
| `daemon` | what the daemon holds, and what it does each time it looks at the desk |
| `phones` | what adb prints, which phone is selected, what is remembered |
| `capture` | the virtual camera, scrcpy, its window, and who else reads the camera |
| `settings` | what a phone's lenses allow, what is applied and what is pending |
| `number` | double-precision numbers as integers, rounded as the machine rounds |
| `divisors` | the greatest common divisor, and lowest terms |
| `cli` | the command line and what it prints |
| `outside` | the acts and the answers |
| `command` | deadlines for external tools |
| `json`, `text`, `lists`, `table`, `plain` | the values everything is made of |
| `laws` | what holds of every operation, whatever the outside answers |
| `invariants` | what operations keep true, and what each does to the capture |
